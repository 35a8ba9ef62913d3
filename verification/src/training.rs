//! Training sessions as they are recorded, and the part of them that
//! belongs to one exercise.

use crate::date::Date;
use vstd::prelude::*;

verus! {

/// One step of a training session. Weight and exertion are counted in
/// thousandths (of a kilogram, of a point on the scale of exertion).
#[derive(Clone, Copy, Debug, PartialEq, Eq)]
pub enum TrainingSessionElement {
    ExerciseSet { exercise_id: u32, reps: Option<u32>, time: Option<u32>, weight: Option<u32>, rpe: Option<u32> },
    Rest { target_time: Option<u32>, automatic: bool },
}

/// A training session: when it took place and what was done.
#[derive(Clone, Debug, PartialEq, Eq)]
pub struct TrainingSession {
    pub id: u32,
    pub routine_id: Option<u32>,
    pub date: Date,
    pub notes: String,
    pub elements: Vec<TrainingSessionElement>,
}

/// A training session as a value of mathematics.
pub struct TrainingSessionView {
    pub id: u32,
    pub routine_id: Option<u32>,
    pub date: Date,
    pub notes: Seq<char>,
    pub elements: Seq<TrainingSessionElement>,
}

impl View for TrainingSession {
    type V = TrainingSessionView;

    open spec fn view(&self) -> TrainingSessionView {
        TrainingSessionView {
            id: self.id,
            routine_id: self.routine_id,
            date: self.date,
            notes: self.notes@,
            elements: self.elements@,
        }
    }
}

/// Whether the element is a set of the exercise.
pub open spec fn is_set_of(element: TrainingSessionElement, exercise_id: u32) -> bool {
    element matches TrainingSessionElement::ExerciseSet { exercise_id: id, .. } && id == exercise_id
}

/// The sets of the exercise among the elements, in their order.
pub open spec fn sets_of(elements: Seq<TrainingSessionElement>, exercise_id: u32) -> Seq<
    TrainingSessionElement,
> {
    elements.filter(|e: TrainingSessionElement| is_set_of(e, exercise_id))
}

/// Whether the session has a set of the exercise.
pub open spec fn trains(session: TrainingSessionView, exercise_id: u32) -> bool {
    exists|i: int|
        0 <= i < session.elements.len() && is_set_of(#[trigger] session.elements[i], exercise_id)
}

/// The session with nothing but its sets of the exercise.
pub open spec fn only_sets_of(session: TrainingSessionView, exercise_id: u32) -> TrainingSessionView {
    TrainingSessionView { elements: sets_of(session.elements, exercise_id), ..session }
}

/// The sessions as values of mathematics.
pub open spec fn views(sessions: Seq<TrainingSession>) -> Seq<TrainingSessionView> {
    sessions.map_values(|t: TrainingSession| t@)
}

/// The sessions that have a set of the exercise, each with nothing but
/// these sets, in the order of the sessions.
pub open spec fn sessions_of(sessions: Seq<TrainingSessionView>, exercise_id: u32) -> Seq<
    TrainingSessionView,
> {
    sessions.filter(|t: TrainingSessionView| trains(t, exercise_id)).map_values(
        |t: TrainingSessionView| only_sets_of(t, exercise_id),
    )
}

/// A session has a set of the exercise exactly if its sets of the exercise
/// are not empty.
pub proof fn lemma_trains(session: TrainingSessionView, exercise_id: u32)
    ensures
        trains(session, exercise_id) <==> sets_of(session.elements, exercise_id).len() > 0,
{
    let pred = |e: TrainingSessionElement| is_set_of(e, exercise_id);
    let elements = session.elements;
    if trains(session, exercise_id) {
        let i = choose|i: int|
            0 <= i < elements.len() && is_set_of(#[trigger] elements[i], exercise_id);
        elements.lemma_filter_contains(pred, i);
        assert(elements.filter(pred).contains(elements[i]));
    }
    if sets_of(elements, exercise_id).len() > 0 {
        let kept = elements.filter(pred);
        elements.lemma_filter_pred(pred, 0);
        assert(kept.contains(kept[0]));
        elements.lemma_filter_contains_rev(pred, kept[0]);
        let i = choose|i: int| 0 <= i < elements.len() && elements[i] == kept[0];
        assert(is_set_of(elements[i], exercise_id));
    }
}

/// The sets of the exercise among the elements.
pub fn sets_of_exercise(elements: &Vec<TrainingSessionElement>, exercise_id: u32) -> (r: Vec<
    TrainingSessionElement,
>)
    ensures
        r@ == sets_of(elements@, exercise_id),
{
    let mut r: Vec<TrainingSessionElement> = Vec::new();
    let mut k: usize = 0;
    proof {
        assert(elements@.take(0) =~= Seq::empty());
        reveal(Seq::filter);
    }
    while k < elements.len()
        invariant
            k <= elements.len(),
            r@ == sets_of(elements@.take(k as int), exercise_id),
        decreases elements.len() - k,
    {
        proof {
            assert(elements@.take(k + 1) =~= elements@.take(k as int).push(elements@[k as int]));
            elements@.take(k as int).lemma_filter_push(
                elements@[k as int],
                |e: TrainingSessionElement| is_set_of(e, exercise_id),
            );
        }
        let element = elements[k];
        let keep = match element {
            TrainingSessionElement::ExerciseSet { exercise_id: id, .. } => id == exercise_id,
            TrainingSessionElement::Rest { .. } => false,
        };
        if keep {
            r.push(element);
        }
        k += 1;
    }
    proof {
        assert(elements@.take(k as int) =~= elements@);
    }
    r
}

/// The training sessions in which the exercise was trained, each cut down
/// to its sets of the exercise.
pub fn exercise_training_sessions(sessions: &[TrainingSession], exercise_id: u32) -> (r: Vec<
    TrainingSession,
>)
    ensures
        views(r@) == sessions_of(views(sessions@), exercise_id),
{
    let mut r: Vec<TrainingSession> = Vec::new();
    let mut k: usize = 0;
    proof {
        assert(sessions@.take(0) =~= Seq::empty());
        assert(views(sessions@.take(0)) =~= Seq::empty());
        reveal(Seq::filter);
        assert(views(r@) =~= sessions_of(views(sessions@.take(0)), exercise_id));
    }
    while k < sessions.len()
        invariant
            k <= sessions.len(),
            views(r@) == sessions_of(views(sessions@.take(k as int)), exercise_id),
        decreases sessions.len() - k,
    {
        let session = &sessions[k];
        let elements = sets_of_exercise(&session.elements, exercise_id);
        let ghost before = r@;
        let ghost seen = views(sessions@.take(k as int));
        proof {
            lemma_trains(session@, exercise_id);
            assert(views(sessions@.take(k + 1)) =~= seen.push(session@));
            seen.lemma_filter_push(session@, |t: TrainingSessionView| trains(t, exercise_id));
        }
        if elements.len() > 0 {
            let cut = TrainingSession {
                id: session.id,
                routine_id: session.routine_id,
                date: session.date,
                notes: session.notes.clone(),
                elements,
            };
            r.push(cut);
            proof {
                assert(cut@ == only_sets_of(session@, exercise_id));
                assert(views(r@) =~= views(before).push(cut@));
                let kept = seen.filter(|t: TrainingSessionView| trains(t, exercise_id));
                assert(kept.push(session@).map_values(
                    |t: TrainingSessionView| only_sets_of(t, exercise_id),
                ) =~= kept.map_values(|t: TrainingSessionView| only_sets_of(t, exercise_id)).push(
                    cut@,
                ));
            }
        }
        k += 1;
    }
    proof {
        assert(sessions@.take(k as int) =~= sessions@);
    }
    r
}

} // verus!
