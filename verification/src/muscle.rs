//! Muscles and the stimulus that an exercise gives them.

use std::collections::BTreeMap;
use vstd::prelude::*;

verus! {

broadcast use vstd::std_specs::btree::group_btree_axioms;

/// How much an exercise stimulates one muscle, in percent.
#[derive(Clone, Copy, Debug, PartialEq, Eq)]
pub struct ExerciseMuscle {
    pub muscle_id: u8,
    pub stimulus: u8,
}

/// The stimulus per muscle that a list of muscles gives, a later entry for
/// a muscle replacing an earlier one.
pub open spec fn stimulus_of(muscles: Seq<ExerciseMuscle>) -> Map<u8, u8>
    decreases muscles.len(),
{
    if muscles.len() == 0 {
        Map::empty()
    } else {
        stimulus_of(muscles.drop_last()).insert(muscles.last().muscle_id, muscles.last().stimulus)
    }
}

/// The muscle with the given number, if it has a stimulus.
pub open spec fn muscle_of(stimulus: Map<u8, u8>, muscle_id: u8) -> Option<ExerciseMuscle> {
    if stimulus.contains_key(muscle_id) {
        Some(ExerciseMuscle { muscle_id, stimulus: stimulus[muscle_id] })
    } else {
        None
    }
}

/// The muscles that have a stimulus, ordered by their number.
pub open spec fn muscles_of(stimulus: Map<u8, u8>) -> Seq<ExerciseMuscle> {
    Seq::new(256, |i: int| i as u8).filter_map(|id: u8| muscle_of(stimulus, id))
}

/// Lists the muscles that have a stimulus, ordered by their number.
pub fn muscles_with_stimulus(stimulus: &BTreeMap<u8, u8>) -> (r: Vec<ExerciseMuscle>)
    ensures
        r@ == muscles_of(stimulus@),
{
    let ghost ids = Seq::new(256, |i: int| i as u8);
    let mut r: Vec<ExerciseMuscle> = Vec::new();
    let mut k: u16 = 0;
    proof {
        assert(ids.take(0) =~= Seq::empty());
    }
    while k < 256
        invariant
            k <= 256,
            ids == Seq::new(256, |i: int| i as u8),
            r@ == ids.take(k as int).filter_map(|id: u8| muscle_of(stimulus@, id)),
        decreases 256 - k,
    {
        let id: u8 = k as u8;
        proof {
            ids.lemma_filter_map_take_succ(|id: u8| muscle_of(stimulus@, id), k as int);
            assert(ids[k as int] == id);
        }
        match stimulus.get(&id) {
            Some(value) => {
                r.push(ExerciseMuscle { muscle_id: id, stimulus: *value });
            },
            None => {},
        }
        k += 1;
    }
    proof {
        assert(ids.take(k as int) =~= ids);
    }
    r
}

/// How much a muscle takes part in the exercise, as the form offers it.
#[derive(Clone, Copy, Debug, PartialEq, Eq)]
pub enum Level {
    /// A stimulus of 100.
    Primary,
    /// A stimulus above 0 and below 100.
    Secondary,
    /// No stimulus.
    Unused,
    /// A stimulus above 100, which the form does not offer.
    Unknown,
}

/// The level that a stimulus stands for.
pub open spec fn level_of(stimulus: u8) -> Level {
    if stimulus == 100 {
        Level::Primary
    } else if 0 < stimulus < 100 {
        Level::Secondary
    } else if stimulus == 0 {
        Level::Unused
    } else {
        Level::Unknown
    }
}

/// The level that a stimulus stands for.
pub fn level(stimulus: u8) -> (r: Level)
    ensures
        r == level_of(stimulus),
{
    if stimulus == 100 {
        Level::Primary
    } else if stimulus == 0 {
        Level::Unused
    } else if stimulus < 100 {
        Level::Secondary
    } else {
        Level::Unknown
    }
}

/// The muscle with its stimulus, which is zero where none is recorded.
pub open spec fn stimulated(stimulus: Map<u8, u8>, muscle_id: u8) -> ExerciseMuscle {
    ExerciseMuscle {
        muscle_id,
        stimulus: if stimulus.contains_key(muscle_id) {
            stimulus[muscle_id]
        } else {
            0
        },
    }
}

/// The muscles with their stimulus, in the order given.
pub open spec fn all_muscles(muscle_ids: Seq<u8>, stimulus: Map<u8, u8>) -> Seq<ExerciseMuscle> {
    muscle_ids.map_values(|id: u8| stimulated(stimulus, id))
}

/// The muscles whose stimulus is `stimulus`, in the order given.
pub open spec fn muscles_at(muscles: Seq<ExerciseMuscle>, stimulus: int) -> Seq<ExerciseMuscle> {
    muscles.filter(|m: ExerciseMuscle| m.stimulus == stimulus)
}

/// The muscles with a stimulus from `highest` down to 1, the greater
/// stimulus first and muscles of one stimulus in the order given.
pub open spec fn ranked(muscles: Seq<ExerciseMuscle>, highest: int) -> Seq<ExerciseMuscle>
    decreases highest,
{
    if highest <= 0 {
        Seq::empty()
    } else {
        muscles_at(muscles, highest) + ranked(muscles, highest - 1)
    }
}

/// The muscles with a stimulus from `highest` down to above `lowest`.
pub open spec fn ranked_above(muscles: Seq<ExerciseMuscle>, highest: int, lowest: int) -> Seq<
    ExerciseMuscle,
>
    decreases highest - lowest,
{
    if highest <= lowest {
        Seq::empty()
    } else {
        ranked_above(muscles, highest, lowest + 1) + muscles_at(muscles, lowest + 1)
    }
}

/// Ranking down to a stimulus and then the rest is ranking all.
pub proof fn lemma_ranked_split(muscles: Seq<ExerciseMuscle>, highest: int, lowest: int)
    requires
        0 <= lowest <= highest,
    ensures
        ranked(muscles, highest) == ranked_above(muscles, highest, lowest) + ranked(
            muscles,
            lowest,
        ),
    decreases highest - lowest,
{
    if highest == lowest {
        assert(ranked_above(muscles, highest, lowest) + ranked(muscles, lowest) =~= ranked(
            muscles,
            lowest,
        ));
    } else {
        lemma_ranked_split(muscles, highest, lowest + 1);
        assert(ranked(muscles, lowest + 1) == muscles_at(muscles, lowest + 1) + ranked(
            muscles,
            lowest,
        ));
        assert(ranked_above(muscles, highest, lowest + 1) + (muscles_at(muscles, lowest + 1)
            + ranked(muscles, lowest)) =~= (ranked_above(muscles, highest, lowest + 1)
            + muscles_at(muscles, lowest + 1)) + ranked(muscles, lowest));
    }
}

/// The muscles with their stimulus, in the order given.
pub fn muscles_of_model(muscle_ids: &[u8], stimulus: &BTreeMap<u8, u8>) -> (r: Vec<ExerciseMuscle>)
    ensures
        r@ == all_muscles(muscle_ids@, stimulus@),
{
    let mut r: Vec<ExerciseMuscle> = Vec::new();
    let mut k: usize = 0;
    while k < muscle_ids.len()
        invariant
            k <= muscle_ids.len(),
            r@.len() == k,
            forall|i: int| 0 <= i < k ==> r@[i] == stimulated(stimulus@, muscle_ids@[i]),
        decreases muscle_ids.len() - k,
    {
        let id = muscle_ids[k];
        let value: u8 = match stimulus.get(&id) {
            Some(value) => *value,
            None => 0,
        };
        r.push(ExerciseMuscle { muscle_id: id, stimulus: value });
        k += 1;
    }
    proof {
        assert(r@ =~= all_muscles(muscle_ids@, stimulus@));
    }
    r
}

/// Orders the muscles that have a stimulus: the greater stimulus first,
/// muscles of one stimulus in the order given.
pub fn rank_muscles(muscles: &Vec<ExerciseMuscle>) -> (r: Vec<ExerciseMuscle>)
    ensures
        r@ == ranked(muscles@, 255),
{
    let mut r: Vec<ExerciseMuscle> = Vec::new();
    let mut stimulus: u8 = 255;
    proof {
        assert(r@ =~= ranked_above(muscles@, 255, 255));
    }
    while stimulus > 0
        invariant
            r@ == ranked_above(muscles@, 255, stimulus as int),
        decreases stimulus,
    {
        let ghost before = r@;
        let mut k: usize = 0;
        proof {
            assert(muscles@.take(0) =~= Seq::empty());
            reveal(Seq::filter);
            assert(muscles_at(muscles@.take(0), stimulus as int) =~= Seq::empty());
            assert(r@ =~= before + muscles_at(muscles@.take(0), stimulus as int));
        }
        while k < muscles.len()
            invariant
                k <= muscles.len(),
                r@ == before + muscles_at(muscles@.take(k as int), stimulus as int),
            decreases muscles.len() - k,
        {
            proof {
                assert(muscles@.take(k + 1) =~= muscles@.take(k as int).push(muscles@[k as int]));
                muscles@.take(k as int).lemma_filter_push(
                    muscles@[k as int],
                    |m: ExerciseMuscle| m.stimulus == stimulus as int,
                );
            }
            if muscles[k].stimulus == stimulus {
                r.push(muscles[k]);
                proof {
                    assert(r@ =~= before + muscles_at(muscles@.take(k + 1), stimulus as int));
                }
            }
            k += 1;
        }
        proof {
            assert(muscles@.take(k as int) =~= muscles@);
        }
        stimulus -= 1;
    }
    proof {
        lemma_ranked_split(muscles@, 255, 0);
        assert(ranked(muscles@, 0) =~= Seq::empty());
        assert(ranked_above(muscles@, 255, 0) + ranked(muscles@, 0) =~= ranked_above(
            muscles@,
            255,
            0,
        ));
    }
    r
}

} // verus!
