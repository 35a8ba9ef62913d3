//! The page of one exercise: its state, and how messages change it.

use crate::calendar::exercise_interval;
use crate::calendar::filter_by_interval;
use crate::calendar::spans;
use crate::calendar::within;
use crate::date::Date;
use crate::date::Interval;
use crate::muscle::all_muscles;
use crate::muscle::muscles_of;
use crate::muscle::muscles_of_model;
use crate::muscle::muscles_with_stimulus;
use crate::muscle::rank_muscles;
use crate::muscle::ranked;
use crate::muscle::stimulus_of;
use crate::muscle::ExerciseMuscle;
use crate::number::parse_u32;
use crate::number::spelled_u32;
use crate::session::SessionMetrics;
use std::collections::BTreeMap;
use vstd::prelude::*;

verus! {

broadcast use vstd::std_specs::btree::group_btree_axioms;

/// A text input: what was typed, what it stands for if it is acceptable, and
/// what it was before any change.
#[derive(Clone, Debug, PartialEq, Eq)]
pub struct InputField {
    pub input: String,
    pub parsed: Option<String>,
    pub orig: String,
}

impl InputField {
    /// Whether the input is acceptable.
    pub fn valid(&self) -> (r: bool)
        ensures
            r == (self.parsed is Some),
    {
        self.parsed.is_some()
    }

    /// Whether the input differs from what it was.
    pub fn changed(&self) -> (r: bool)
        ensures
            r == (self.input@ != self.orig@),
    {
        !(self.input == self.orig)
    }
}

/// An exercise and the muscles it stimulates.
#[derive(Clone, Debug, PartialEq, Eq)]
pub struct Exercise {
    pub id: u32,
    pub name: String,
    pub muscles: Vec<ExerciseMuscle>,
}

impl Exercise {
    /// The stimulus of each muscle that the exercise lists.
    pub fn muscle_stimulus(&self) -> (r: BTreeMap<u8, u8>)
        ensures
            r@ == stimulus_of(self.muscles@),
    {
        let mut r: BTreeMap<u8, u8> = BTreeMap::new();
        let mut k: usize = 0;
        proof {
            assert(self.muscles@.take(0) =~= Seq::empty());
        }
        while k < self.muscles.len()
            invariant
                k <= self.muscles.len(),
                r@ == stimulus_of(self.muscles@.take(k as int)),
            decreases self.muscles.len() - k,
        {
            proof {
                assert(self.muscles@.take(k + 1).drop_last() =~= self.muscles@.take(k as int));
            }
            r.insert(self.muscles[k].muscle_id, self.muscles[k].stimulus);
            k += 1;
        }
        proof {
            assert(self.muscles@.take(k as int) =~= self.muscles@);
        }
        r
    }
}

/// The dialog that the page shows.
#[derive(Clone, Copy, Debug, PartialEq, Eq)]
pub enum Dialog {
    Hidden,
    DeleteTrainingSession(u32),
}

/// The state of the page.
#[derive(Clone, Debug, PartialEq, Eq)]
pub struct Model {
    pub interval: Interval,
    pub exercise_id: u32,
    pub name: InputField,
    pub muscle_stimulus: BTreeMap<u8, u8>,
    pub dialog: Dialog,
    pub editing: bool,
    pub loading: bool,
}

impl Model {
    /// Whether the name was changed and not saved.
    pub fn has_unsaved_changes(&self) -> (r: bool)
        ensures
            r == (self.name.input@ != self.name.orig@),
    {
        self.name.changed()
    }

    /// Takes the accepted name for the saved one.
    pub fn mark_as_unchanged(&mut self)
        requires
            old(self).name.parsed is Some,
        ensures
            final(self).name.input@ == old(self).name.parsed->0@,
            final(self).name.orig@ == old(self).name.parsed->0@,
            final(self).name.parsed == old(self).name.parsed,
            final(self).interval == old(self).interval,
            final(self).exercise_id == old(self).exercise_id,
            final(self).muscle_stimulus == old(self).muscle_stimulus,
            final(self).dialog == old(self).dialog,
            final(self).editing == old(self).editing,
            final(self).loading == old(self).loading,
    {
        match &self.name.parsed {
            Some(name) => {
                let input = name.clone();
                let orig = name.clone();
                self.name.input = input;
                self.name.orig = orig;
            },
            None => {},
        }
    }

    /// Whether saving is out of the question: a request is under way or the
    /// name is not acceptable.
    pub fn saving_disabled(&self) -> (r: bool)
        ensures
            r == (self.loading || self.name.parsed is None),
    {
        self.loading || !self.name.valid()
    }
}

/// What `str::trim` makes of a text: the text without the white space at
/// its start and at its end.
pub uninterp spec fn trimmed(text: Seq<char>) -> Seq<char>;

/// Calls `str::trim` of the standard library. Trusted: the outcome depends
/// on the text alone; it is named `trimmed`.
#[verifier::external_body]
fn trim(text: &str) -> (r: &str)
    ensures
        r@ == trimmed(text@),
{
    text.trim()
}

/// Whether an exercise has the name.
pub open spec fn name_taken(exercises: Seq<Exercise>, name: Seq<char>) -> bool {
    exists|i: int| 0 <= i < exercises.len() && (#[trigger] exercises[i]).name@ == name
}

/// Whether a trimmed name can be given to the exercise whose name was
/// `orig`: it is not empty, and it is the old name or no exercise has it.
pub open spec fn acceptable(name: Seq<char>, orig: Seq<char>, exercises: Seq<Exercise>) -> bool {
    name.len() > 0 && (name == orig || !name_taken(exercises, name))
}

/// Whether an exercise has the name.
pub fn is_name_taken(exercises: &Vec<Exercise>, name: &String) -> (r: bool)
    ensures
        r == name_taken(exercises@, name@),
{
    let mut k: usize = 0;
    while k < exercises.len()
        invariant
            k <= exercises.len(),
            forall|i: int| 0 <= i < k ==> (#[trigger] exercises@[i]).name@ != name@,
        decreases exercises.len() - k,
    {
        if exercises[k].name == *name {
            return true;
        }
        k += 1;
    }
    false
}

/// The name field after `input` was typed, where `name` is the input
/// without the white space around it: the name is accepted if it is not
/// empty and is the old name or the name of no exercise.
pub fn checked_name(input: String, name: String, orig: String, exercises: &Vec<Exercise>) -> (r:
    InputField)
    ensures
        r.input == input,
        r.orig == orig,
        match r.parsed {
            Some(parsed) => acceptable(name@, orig@, exercises@) && parsed == name,
            None => !acceptable(name@, orig@, exercises@),
        },
{
    let accepted = !name.as_str().is_empty() && (name == orig || !is_name_taken(exercises, &name));
    if accepted {
        InputField { input, parsed: Some(name), orig }
    } else {
        InputField { input, parsed: None, orig }
    }
}

/// What happened to the application's data.
#[derive(Clone, Copy, Debug, PartialEq, Eq)]
pub enum Event {
    DataChanged,
    ExerciseReplacedOk,
    TrainingSessionDeletedOk,
    Other,
}

/// What the page can be told.
#[derive(Clone, Debug, PartialEq, Eq)]
pub enum Msg {
    EditExercise,
    SaveExercise,
    ShowDeleteTrainingSessionDialog(u32),
    CloseDialog,
    NameChanged(String),
    SetMuscleStimulus(u8, u8),
    DeleteTrainingSession(u32),
    DataEvent(Event),
    ChangeInterval(Date, Date),
}

/// A place to go to; the number is that of the exercise.
#[derive(Clone, Copy, Debug, PartialEq, Eq)]
pub enum Target {
    Exercise(u32),
    ExerciseEdit(u32),
    Routine(u32),
}

/// What is left for the application to do after a message.
#[derive(Clone, Debug, PartialEq, Eq)]
pub enum Action {
    Nothing,
    /// Go to the place, adding it to the history.
    GoAndPush(Target),
    /// Go to the place, replacing the current one in the history.
    GoAndReplace(Target),
    /// Ask for the exercise to be stored in place of the old one.
    ReplaceExercise(Exercise),
    /// Ask for the training session to be deleted.
    DeleteTrainingSession(u32),
    /// Send `Msg::CloseDialog` and skip rendering.
    SendCloseDialog,
}

/// What the page reads of the application's data.
#[derive(Clone, Debug, PartialEq, Eq)]
pub struct Data {
    /// All exercises.
    pub exercises: Vec<Exercise>,
    /// The interval with which the page of the exercise starts out.
    pub interval: Interval,
}

/// Whether `index` is the place of the first exercise with the number, or
/// `None` and no exercise has it.
pub open spec fn is_first_with_id(exercises: Seq<Exercise>, id: u32, index: Option<usize>) -> bool {
    match index {
        Some(i) => {
            &&& i < exercises.len()
            &&& exercises[i as int].id == id
            &&& forall|j: int| 0 <= j < i ==> (#[trigger] exercises[j]).id != id
        },
        None => forall|j: int| 0 <= j < exercises.len() ==> (#[trigger] exercises[j]).id != id,
    }
}

/// Finds the first exercise with the number.
pub fn find_exercise(exercises: &Vec<Exercise>, id: u32) -> (r: Option<usize>)
    ensures
        is_first_with_id(exercises@, id, r),
{
    let mut k: usize = 0;
    while k < exercises.len()
        invariant
            k <= exercises.len(),
            forall|j: int| 0 <= j < k ==> (#[trigger] exercises@[j]).id != id,
        decreases exercises.len() - k,
    {
        if exercises[k].id == id {
            return Some(k);
        }
        k += 1;
    }
    None
}

/// Whether `post` is `pre` brought up to date with the data: it has the
/// data's interval and, where the data has the exercise, its name (as input,
/// as accepted name and as saved name) and the stimulus of its muscles.
pub open spec fn brought_up_to_date(pre: Model, data: Data, post: Model) -> bool {
    &&& post.interval == data.interval
    &&& post.exercise_id == pre.exercise_id
    &&& post.dialog == pre.dialog
    &&& post.editing == pre.editing
    &&& post.loading == pre.loading
    &&& exists|index: Option<usize>| #[trigger]
        is_first_with_id(data.exercises@, pre.exercise_id, index) && match index {
            Some(i) => {
                let exercise = data.exercises@[i as int];
                &&& post.name.input == exercise.name
                &&& post.name.parsed == Some(exercise.name)
                &&& post.name.orig == exercise.name
                &&& post.muscle_stimulus@ == stimulus_of(exercise.muscles@)
            },
            None => post.name == pre.name && post.muscle_stimulus == pre.muscle_stimulus,
        }
}

/// Brings the state up to date with the data.
pub fn update_model(model: &mut Model, data: &Data)
    ensures
        brought_up_to_date(*old(model), *data, *final(model)),
{
    model.interval = data.interval;
    let found = find_exercise(&data.exercises, model.exercise_id);
    match found {
        Some(i) => {
            let exercise = &data.exercises[i];
            model.name = InputField {
                input: exercise.name.clone(),
                parsed: Some(exercise.name.clone()),
                orig: exercise.name.clone(),
            };
            model.muscle_stimulus = exercise.muscle_stimulus();
        },
        None => {},
    }
    proof {
        assert(is_first_with_id(data.exercises@, old(model).exercise_id, found));
    }
}

/// Whether a message can be handled: saving, and the news that the exercise
/// was saved, need an accepted name.
pub open spec fn can_handle(model: Model, msg: Msg) -> bool {
    match msg {
        Msg::SaveExercise => model.name.parsed is Some,
        Msg::DataEvent(Event::ExerciseReplacedOk) => model.name.parsed is Some,
        _ => true,
    }
}

/// Whether the name field is what comes of typing `input` into `pre`.
pub open spec fn name_typed(pre: InputField, input: String, exercises: Seq<Exercise>, post: InputField) -> bool {
    &&& post.input == input
    &&& post.orig == pre.orig
    &&& match post.parsed {
        Some(parsed) => acceptable(trimmed(input@), pre.orig@, exercises) && parsed@ == trimmed(
            input@,
        ),
        None => !acceptable(trimmed(input@), pre.orig@, exercises),
    }
}

/// Whether the stimulus of the muscles is what comes of setting that of
/// one muscle: zero takes the muscle out, 1 to 100 is recorded, anything
/// above is ignored.
pub open spec fn stimulus_set(pre: Map<u8, u8>, muscle_id: u8, stimulus: u8, post: Map<u8, u8>) -> bool {
    if stimulus == 0 {
        post == pre.remove(muscle_id)
    } else if stimulus <= 100 {
        post == pre.insert(muscle_id, stimulus)
    } else {
        post == pre
    }
}

/// Whether state `post` and `action` are what message `msg` makes of state
/// `pre`, given the data.
pub open spec fn handled(pre: Model, msg: Msg, data: Data, post: Model, action: Action) -> bool {
    match msg {
        Msg::EditExercise => {
            &&& post == Model { editing: true, ..pre }
            &&& action == Action::GoAndPush(Target::ExerciseEdit(pre.exercise_id))
        },
        Msg::SaveExercise => {
            &&& post == Model { loading: true, ..pre }
            &&& action matches Action::ReplaceExercise(exercise)
            &&& exercise.id == pre.exercise_id
            &&& Some(exercise.name) == pre.name.parsed
            &&& exercise.muscles@ == muscles_of(pre.muscle_stimulus@)
        },
        Msg::ShowDeleteTrainingSessionDialog(position) => {
            &&& post == Model { dialog: Dialog::DeleteTrainingSession(position), ..pre }
            &&& action == Action::Nothing
        },
        Msg::CloseDialog => {
            &&& post == Model { dialog: Dialog::Hidden, loading: false, ..pre }
            &&& action == Action::GoAndReplace(Target::Routine(pre.exercise_id))
        },
        Msg::NameChanged(input) => {
            &&& name_typed(pre.name, input, data.exercises@, post.name)
            &&& post.interval == pre.interval
            &&& post.exercise_id == pre.exercise_id
            &&& post.muscle_stimulus == pre.muscle_stimulus
            &&& post.dialog == pre.dialog
            &&& post.editing == pre.editing
            &&& post.loading == pre.loading
            &&& action == Action::Nothing
        },
        Msg::SetMuscleStimulus(muscle_id, stimulus) => {
            &&& stimulus_set(pre.muscle_stimulus@, muscle_id, stimulus, post.muscle_stimulus@)
            &&& post.interval == pre.interval
            &&& post.exercise_id == pre.exercise_id
            &&& post.name == pre.name
            &&& post.dialog == pre.dialog
            &&& post.editing == pre.editing
            &&& post.loading == pre.loading
            &&& action == Action::Nothing
        },
        Msg::DeleteTrainingSession(id) => {
            &&& post == Model { loading: true, ..pre }
            &&& action == Action::DeleteTrainingSession(id)
        },
        Msg::DataEvent(Event::DataChanged) => {
            &&& brought_up_to_date(Model { loading: false, ..pre }, data, post)
            &&& action == Action::Nothing
        },
        Msg::DataEvent(Event::ExerciseReplacedOk) => {
            &&& pre.name.parsed matches Some(name)
            &&& post.name.input@ == name@
            &&& post.name.orig@ == name@
            &&& post.name.parsed == pre.name.parsed
            &&& post.interval == pre.interval
            &&& post.exercise_id == pre.exercise_id
            &&& post.muscle_stimulus == pre.muscle_stimulus
            &&& post.dialog == pre.dialog
            &&& !post.editing
            &&& !post.loading
            &&& action == Action::GoAndPush(Target::Exercise(pre.exercise_id))
        },
        Msg::DataEvent(Event::TrainingSessionDeletedOk) => {
            &&& post == Model { loading: false, ..pre }
            &&& action == Action::SendCloseDialog
        },
        Msg::DataEvent(Event::Other) => {
            &&& post == Model { loading: false, ..pre }
            &&& action == Action::Nothing
        },
        Msg::ChangeInterval(first, last) => {
            &&& post == Model { interval: Interval { first, last }, ..pre }
            &&& action == Action::Nothing
        },
    }
}

/// The name field after `input` was typed: the input is accepted, without
/// the white space around it, if that leaves something and it is the old
/// name or the name of no exercise.
pub fn enter_name(field: &InputField, input: String, exercises: &Vec<Exercise>) -> (r: InputField)
    ensures
        name_typed(*field, input, exercises@, r),
{
    let name = String::from_str(trim(input.as_str()));
    checked_name(input, name, field.orig.clone(), exercises)
}

/// Handles a message: changes the state and says what is left to do.
pub fn update(msg: Msg, model: &mut Model, data: &Data) -> (action: Action)
    requires
        can_handle(*old(model), msg),
    ensures
        handled(*old(model), msg, *data, *final(model), action),
{
    match msg {
        Msg::EditExercise => {
            model.editing = true;
            Action::GoAndPush(Target::ExerciseEdit(model.exercise_id))
        },
        Msg::SaveExercise => {
            model.loading = true;
            let name = match &model.name.parsed {
                Some(name) => name.clone(),
                None => String::new(),
            };
            Action::ReplaceExercise(
                Exercise {
                    id: model.exercise_id,
                    name,
                    muscles: muscles_with_stimulus(&model.muscle_stimulus),
                },
            )
        },
        Msg::ShowDeleteTrainingSessionDialog(position) => {
            model.dialog = Dialog::DeleteTrainingSession(position);
            Action::Nothing
        },
        Msg::CloseDialog => {
            model.dialog = Dialog::Hidden;
            model.loading = false;
            Action::GoAndReplace(Target::Routine(model.exercise_id))
        },
        Msg::NameChanged(input) => {
            model.name = enter_name(&model.name, input, &data.exercises);
            Action::Nothing
        },
        Msg::SetMuscleStimulus(muscle_id, stimulus) => {
            if stimulus == 0 {
                model.muscle_stimulus.remove(&muscle_id);
            } else if stimulus <= 100 {
                model.muscle_stimulus.insert(muscle_id, stimulus);
            }
            Action::Nothing
        },
        Msg::DeleteTrainingSession(id) => {
            model.loading = true;
            Action::DeleteTrainingSession(id)
        },
        Msg::DataEvent(event) => {
            model.loading = false;
            match event {
                Event::DataChanged => {
                    update_model(model, data);
                    Action::Nothing
                },
                Event::ExerciseReplacedOk => {
                    model.editing = false;
                    model.mark_as_unchanged();
                    Action::GoAndPush(Target::Exercise(model.exercise_id))
                },
                Event::TrainingSessionDeletedOk => Action::SendCloseDialog,
                Event::Other => Action::Nothing,
            }
        },
        Msg::ChangeInterval(first, last) => {
            model.interval.first = first;
            model.interval.last = last;
            Action::Nothing
        },
    }
}

/// The number of the exercise that a part of the address names, zero where
/// it names none.
pub open spec fn exercise_id_of(part: Option<&str>) -> u32 {
    match part {
        Some(text) => match spelled_u32(text@) {
            Some(id) => id,
            None => 0,
        },
        None => 0,
    }
}

/// The state of a page that was not brought up to date yet.
pub open spec fn is_blank(model: Model, exercise_id: u32, editing: bool) -> bool {
    &&& model.exercise_id == exercise_id
    &&& model.name.input@.len() == 0
    &&& model.name.parsed is None
    &&& model.name.orig@.len() == 0
    &&& model.muscle_stimulus@ == Map::<u8, u8>::empty()
    &&& model.dialog == Dialog::Hidden
    &&& model.editing == editing
    &&& !model.loading
}

/// The state with which the page starts: the exercise is the one that the
/// first part of the address names, the page edits if the second part is
/// `edit`, and everything else is as the data has it.
pub fn init(id_part: Option<&str>, edit_part: Option<&str>, data: &Data) -> (model: Model)
    ensures
        exists|blank: Model|
            is_blank(
                blank,
                exercise_id_of(id_part),
                edit_part matches Some(text) && text@ == "edit"@,
            ) && #[trigger] brought_up_to_date(blank, *data, model),
{
    let exercise_id = match id_part {
        Some(text) => match parse_u32(text) {
            Some(id) => id,
            None => 0,
        },
        None => 0,
    };
    let editing = match edit_part {
        Some(text) => String::from_str(text) == String::from_str("edit"),
        None => false,
    };
    let mut model = Model {
        interval: data.interval,
        exercise_id,
        name: InputField { input: String::new(), parsed: None, orig: String::new() },
        muscle_stimulus: BTreeMap::new(),
        dialog: Dialog::Hidden,
        editing,
        loading: false,
    };
    let ghost blank = model;
    update_model(&mut model, data);
    proof {
        assert(is_blank(blank, exercise_id, editing));
    }
    model
}

/// What the page shows of the muscles.
#[derive(Clone, Debug, PartialEq, Eq)]
pub enum Muscles {
    /// The form: every muscle with its stimulus, in the order given.
    Form(Vec<ExerciseMuscle>),
    /// The tags: the muscles with a stimulus, the greater stimulus first.
    Tags(Vec<ExerciseMuscle>),
}

/// Decides what the page shows of the muscles: while editing every muscle
/// with its stimulus, else the muscles that have one, the greater stimulus
/// first.
pub fn view_muscles(model: &Model, muscle_ids: &[u8]) -> (r: Muscles)
    ensures
        match r {
            Muscles::Form(muscles) => model.editing && muscles@ == all_muscles(
                muscle_ids@,
                model.muscle_stimulus@,
            ),
            Muscles::Tags(muscles) => !model.editing && muscles@ == ranked(
                all_muscles(muscle_ids@, model.muscle_stimulus@),
                255,
            ),
        },
{
    let muscles = muscles_of_model(muscle_ids, &model.muscle_stimulus);
    if model.editing {
        Muscles::Form(muscles)
    } else {
        Muscles::Tags(rank_muscles(&muscles))
    }
}

/// What the page shows.
#[derive(Clone, Debug, PartialEq, Eq)]
pub enum Content {
    /// The exercises are still being loaded.
    Loading,
    /// The form that edits the exercise, with its button to save.
    Editing { loading: bool, saving_disabled: bool },
    /// The charts, the calendar, the table and the sets of the exercise:
    /// all are made of the sessions `shown`, and the interval can be chosen
    /// within `exercise_interval`.
    Showing { exercise_interval: Interval, shown: Vec<SessionMetrics> },
    /// No exercise is named.
    NotFound,
}

/// Whether `content` is what the page shows of the sessions of its
/// exercise: a notice while the exercises are loading and none is there yet;
/// where an exercise is named, its form while editing, and else the
/// sessions within the chosen interval, in their order, together with the
/// interval from the first to the last of all sessions; and where no
/// exercise is named, that there is none.
pub open spec fn shows(
    model: Model,
    sessions: Seq<SessionMetrics>,
    no_exercises: bool,
    loading_exercises: bool,
    content: Content,
) -> bool {
    match content {
        Content::Loading => no_exercises && loading_exercises,
        Content::Editing { loading, saving_disabled } => {
            &&& !(no_exercises && loading_exercises)
            &&& model.exercise_id > 0
            &&& model.editing
            &&& loading == model.loading
            &&& saving_disabled == (model.loading || model.name.parsed is None)
        },
        Content::Showing { exercise_interval, shown } => {
            &&& !(no_exercises && loading_exercises)
            &&& model.exercise_id > 0
            &&& !model.editing
            &&& shown@ == within(sessions, model.interval)
            &&& spans(exercise_interval, sessions)
        },
        Content::NotFound => !(no_exercises && loading_exercises) && model.exercise_id == 0,
    }
}

/// Decides what the page shows of the sessions of its exercise. Only the
/// sessions within the interval of the page are passed on, both ends of the
/// interval included; the exercise interval spans all sessions, whatever
/// interval is chosen.
pub fn view(
    model: &Model,
    sessions: &[SessionMetrics],
    no_exercises: bool,
    loading_exercises: bool,
) -> (r: Content)
    ensures
        shows(*model, sessions@, no_exercises, loading_exercises, r),
{
    if no_exercises && loading_exercises {
        Content::Loading
    } else if model.exercise_id > 0 {
        if model.editing {
            Content::Editing { loading: model.loading, saving_disabled: model.saving_disabled() }
        } else {
            Content::Showing {
                exercise_interval: exercise_interval(sessions),
                shown: filter_by_interval(sessions, &model.interval),
            }
        }
    } else {
        Content::NotFound
    }
}

} // verus!