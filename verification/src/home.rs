//! The home page: the latest body measurements and what went wrong while
//! fetching them.

use crate::date::Date;
use crate::number::decimal;
use crate::number::to_decimal;
use vstd::prelude::*;

verus! {

/// A body weight on a day, in thousandths of a kilogram.
#[derive(Clone, Copy, Debug, PartialEq, Eq)]
pub struct BodyWeight {
    pub date: Date,
    pub weight: u32,
}

/// Skin folds in millimetres on a day, and the body fat in thousandths of a
/// percent that comes of three and of seven of them.
#[derive(Clone, Copy, Debug, PartialEq, Eq)]
pub struct BodyFat {
    pub date: Date,
    pub chest: u8,
    pub abdominal: u8,
    pub tigh: u8,
    pub tricep: u8,
    pub subscapular: u8,
    pub suprailiac: u8,
    pub midaxillary: u8,
    pub jp3: u32,
    pub jp7: u32,
}

/// Who is signed in.
#[derive(Clone, Copy, Debug, PartialEq, Eq)]
pub struct Session {
    pub sex: u8,
}

/// The state of the page.
#[derive(Clone, Debug, PartialEq, Eq)]
pub struct Model {
    pub session: Session,
    pub body_weight: Option<BodyWeight>,
    pub body_fat: Option<BodyFat>,
    pub errors: Vec<String>,
}

/// What the page can be told.
#[derive(Debug, PartialEq, Eq)]
pub enum Msg {
    CloseErrorDialog,
    FetchBodyWeight,
    BodyWeightFetched(Result<Vec<BodyWeight>, String>),
    FetchBodyFat,
    BodyFatFetched(Result<Vec<BodyFat>, String>),
}

/// What is left for the application to do after a message.
#[derive(Clone, Copy, Debug, PartialEq, Eq)]
pub enum Action {
    Nothing,
    /// Fetch the body weights and answer with `Msg::BodyWeightFetched`,
    /// without rendering.
    FetchBodyWeight,
    /// Fetch the body fat and answer with `Msg::BodyFatFetched`, without
    /// rendering.
    FetchBodyFat,
}

/// The state with which the page starts, and the two messages that are to
/// be sent to it first, in this order.
pub fn init(session: Session) -> (r: (Model, Msg, Msg))
    ensures
        r.0.session == session,
        r.0.body_weight is None,
        r.0.body_fat is None,
        r.0.errors@.len() == 0,
        r.1 == Msg::FetchBodyWeight,
        r.2 == Msg::FetchBodyFat,
{
    (
        Model { session, body_weight: None, body_fat: None, errors: Vec::new() },
        Msg::FetchBodyWeight,
        Msg::FetchBodyFat,
    )
}

/// The last of the values, if there is any.
pub open spec fn last_of<T>(values: Seq<T>) -> Option<T> {
    if values.len() > 0 {
        Some(values.last())
    } else {
        None
    }
}

/// Whether a message can be handled: only an error that is shown can be
/// closed.
pub open spec fn can_handle(model: Model, msg: Msg) -> bool {
    msg is CloseErrorDialog ==> model.errors@.len() > 0
}

/// Whether state `post` and `action` are what message `msg` makes of state
/// `pre`.
pub open spec fn handled(pre: Model, msg: Msg, post: Model, action: Action) -> bool {
    match msg {
        Msg::CloseErrorDialog => {
            &&& post.errors@ == pre.errors@.drop_first()
            &&& post.session == pre.session
            &&& post.body_weight == pre.body_weight
            &&& post.body_fat == pre.body_fat
            &&& action == Action::Nothing
        },
        Msg::FetchBodyWeight => post == pre && action == Action::FetchBodyWeight,
        Msg::BodyWeightFetched(Ok(body_weight)) => {
            &&& post == Model { body_weight: last_of(body_weight@), ..pre }
            &&& action == Action::Nothing
        },
        Msg::BodyWeightFetched(Err(message)) => {
            &&& post.errors@.len() == pre.errors@.len() + 1
            &&& post.errors@.drop_last() == pre.errors@
            &&& post.errors@.last()@ == "Failed to fetch body weight: "@ + message@
            &&& post.session == pre.session
            &&& post.body_weight == pre.body_weight
            &&& post.body_fat == pre.body_fat
            &&& action == Action::Nothing
        },
        Msg::FetchBodyFat => post == pre && action == Action::FetchBodyFat,
        Msg::BodyFatFetched(Ok(body_fat)) => {
            &&& post == Model { body_fat: last_of(body_fat@), ..pre }
            &&& action == Action::Nothing
        },
        Msg::BodyFatFetched(Err(message)) => {
            &&& post.errors@.len() == pre.errors@.len() + 1
            &&& post.errors@.drop_last() == pre.errors@
            &&& post.errors@.last()@ == "Failed to fetch body fat: "@ + message@
            &&& post.session == pre.session
            &&& post.body_weight == pre.body_weight
            &&& post.body_fat == pre.body_fat
            &&& action == Action::Nothing
        },
    }
}

/// Handles a message: changes the state and says what is left to do.
pub fn update(msg: Msg, model: &mut Model) -> (action: Action)
    requires
        can_handle(*old(model), msg),
    ensures
        handled(*old(model), msg, *final(model), action),
{
    match msg {
        Msg::CloseErrorDialog => {
            model.errors.remove(0);
            proof {
                assert(final(model).errors@ =~= old(model).errors@.drop_first());
            }
            Action::Nothing
        },
        Msg::FetchBodyWeight => Action::FetchBodyWeight,
        Msg::BodyWeightFetched(Ok(body_weight)) => {
            model.body_weight = if body_weight.len() > 0 {
                Some(body_weight[body_weight.len() - 1])
            } else {
                None
            };
            Action::Nothing
        },
        Msg::BodyWeightFetched(Err(message)) => {
            let text = String::from_str("Failed to fetch body weight: ").concat(message.as_str());
            model.errors.push(text);
            proof {
                assert(final(model).errors@.drop_last() =~= old(model).errors@);
            }
            Action::Nothing
        },
        Msg::FetchBodyFat => Action::FetchBodyFat,
        Msg::BodyFatFetched(Ok(body_fat)) => {
            model.body_fat = if body_fat.len() > 0 {
                Some(body_fat[body_fat.len() - 1])
            } else {
                None
            };
            Action::Nothing
        },
        Msg::BodyFatFetched(Err(message)) => {
            let text = String::from_str("Failed to fetch body fat: ").concat(message.as_str());
            model.errors.push(text);
            proof {
                assert(final(model).errors@.drop_last() =~= old(model).errors@);
            }
            Action::Nothing
        },
    }
}

/// The note on how long ago a value was updated, given the whole days since.
pub open spec fn last_update_text(days: int) -> Seq<char> {
    if days == 0 {
        "Last update <strong>today</strong>."@
    } else if days == 1 {
        "Last update <strong>yesterday</strong>."@
    } else {
        "Last update <strong>"@ + decimal(days) + " days</strong> ago."@
    }
}

/// The note around the number of days as the standard library writes it.
pub fn last_update_days(days: String) -> (r: String)
    ensures
        r@ == "Last update <strong>"@ + days@ + " days</strong> ago."@,
{
    String::from_str("Last update <strong>").concat(days.as_str()).concat(" days</strong> ago.")
}

/// The note on how long ago a value was updated, given the whole days since.
pub fn last_update(days: i64) -> (r: String)
    ensures
        r@ == last_update_text(days as int),
{
    if days == 0 {
        String::from_str("Last update <strong>today</strong>.")
    } else if days == 1 {
        String::from_str("Last update <strong>yesterday</strong>.")
    } else {
        last_update_days(to_decimal(days))
    }
}

/// What the page shows besides the tiles that are always there.
#[derive(Clone, Debug, PartialEq, Eq)]
pub struct Content {
    /// The note under the body weight; empty where none is known.
    pub body_weight_content: String,
    /// The note under the body fat; empty where none is known.
    pub body_fat_content: String,
    /// Whether the tile of the period is shown.
    pub period: bool,
}

/// The note under a value of the day `date` on the day `today`; empty for
/// no value.
pub open spec fn note(date: Option<Date>, today: Date) -> Seq<char> {
    match date {
        Some(date) => last_update_text(today@ - date@),
        None => Seq::empty(),
    }
}

/// Decides what the page shows on the day `today`.
pub fn view(model: &Model, today: Date) -> (r: Content)
    ensures
        r.body_weight_content@ == note(
            match model.body_weight {
                Some(body_weight) => Some(body_weight.date),
                None => None,
            },
            today,
        ),
        r.body_fat_content@ == note(
            match model.body_fat {
                Some(body_fat) => Some(body_fat.date),
                None => None,
            },
            today,
        ),
        r.period == (model.session.sex == 0),
{
    let body_weight_content = match &model.body_weight {
        Some(body_weight) => last_update(today.days_since(&body_weight.date)),
        None => String::new(),
    };
    let body_fat_content = match &model.body_fat {
        Some(body_fat) => last_update(today.days_since(&body_fat.date)),
        None => String::new(),
    };
    Content { body_weight_content, body_fat_content, period: model.session.sex == 0 }
}

} // verus!
