//! What one training session reports of one exercise. Real-valued
//! quantities (average repetitions, perceived exertion, weight in kg, time in
//! s) are counted in thousandths.

use crate::date::Date;
use vstd::prelude::*;

verus! {

/// The series that are kept per date.
#[derive(Clone, Copy, Debug, PartialEq, Eq)]
pub enum Metric {
    SetVolume,
    VolumeLoad,
    Tut,
    Reps,
    Rpe,
    Weight,
    Time,
}

/// The number and the date of a training session, and its scalar metrics
/// for one exercise.
/// A metric is `None` where the session has no set that defines it.
#[derive(Clone, Copy, Debug, PartialEq, Eq)]
pub struct SessionMetrics {
    /// The number of the training session.
    pub id: u32,
    pub date: Date,
    /// Number of sets that count towards volume.
    pub set_volume: u32,
    /// Total load moved (repetitions times weight, over the sets).
    pub volume_load: u32,
    /// Time under tension in seconds.
    pub tut: Option<u32>,
    /// Average repetitions per set, in thousandths.
    pub avg_reps: Option<u32>,
    /// Average rate of perceived exertion, in thousandths.
    pub avg_rpe: Option<u32>,
    /// Average weight in thousandths of a kilogram.
    pub avg_weight: Option<u32>,
    /// Average time per repetition in thousandths of a second.
    pub avg_time: Option<u32>,
}

impl SessionMetrics {
    /// What the session contributes to the series of `metric` on its date.
    /// Set volume and volume load always contribute; a missing time under
    /// tension contributes zero; a missing average contributes nothing.
    pub open spec fn contribution(self, metric: Metric) -> Option<u32> {
        match metric {
            Metric::SetVolume => Some(self.set_volume),
            Metric::VolumeLoad => Some(self.volume_load),
            Metric::Tut => Some(
                match self.tut {
                    Some(t) => t,
                    None => 0u32,
                },
            ),
            Metric::Reps => self.avg_reps,
            Metric::Rpe => self.avg_rpe,
            Metric::Weight => self.avg_weight,
            Metric::Time => self.avg_time,
        }
    }

    /// What the session contributes to the series of `metric` on its date.
    pub fn value(&self, metric: Metric) -> (r: Option<u32>)
        ensures
            r == self.contribution(metric),
    {
        match metric {
            Metric::SetVolume => Some(self.set_volume),
            Metric::VolumeLoad => Some(self.volume_load),
            Metric::Tut => match self.tut {
                Some(t) => Some(t),
                None => Some(0),
            },
            Metric::Reps => self.avg_reps,
            Metric::Rpe => self.avg_rpe,
            Metric::Weight => self.avg_weight,
            Metric::Time => self.avg_time,
        }
    }
}

} // verus!
