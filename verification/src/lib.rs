//! The logic behind the pages of a fitness tracker.
//!
//! The heart is the aggregation of training sessions: what the sessions of
//! an exercise report is added up and averaged per date (`series`,
//! `charts`), restricted to an interval and turned into a calendar of
//! intensities (`calendar`); `laws` states what holds of these as a whole.
//! Around it stand the records themselves (`date`, `session`, `training`,
//! `muscle`), what is needed of numbers and ordered maps (`number`,
//! `ordered`), and the state machines of the pages (`exercise`, `home`),
//! which change their state on a message, say what is left to do and decide
//! what is shown.
//!
//! All arithmetic is done on integers: real-valued quantities are counted in
//! thousandths.

pub mod calendar;
pub mod charts;
pub mod date;
pub mod exercise;
pub mod home;
pub mod laws;
pub mod muscle;
pub mod number;
pub mod ordered;
pub mod series;
pub mod session;
pub mod training;
