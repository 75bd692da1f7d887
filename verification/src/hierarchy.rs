//! The directory hierarchy that is built from the store: every image lies
//! below its camera, by make and model, and below its day of creation, by
//! year, month and day.

use crate::db::query::binding::{bound_in, Variable, VariableSet, VariableSetExt, VariableSetView};
use crate::db::query::rule::{rule_views, Rule, RuleValView, RuleView};
use crate::db::{Entity, Value, ValueView};
use crate::text::{decimal, signed_decimal, to_decimal, to_signed_decimal};
use vstd::prelude::*;
use vstd::string::StringExecFns;

verus! {

/// Where an image is to lie: the directory of its camera and the directory of
/// its day, both relative to their roots.
#[derive(Debug)]
pub struct Placement {
    pub image: String,
    pub by_camera: String,
    pub by_time: String,
}

/// Why an image cannot be placed.
#[derive(Debug, PartialEq, Eq, Structural, Clone, Copy)]
pub enum HierarchyError {
    /// The solution does not bind the make and the time to data, or does not
    /// bind the model or the image.
    Incomplete,
    /// The time of creation is no RFC 3339 time.
    InvalidTime,
}

/// What `time::OffsetDateTime::parse` with `Rfc3339` makes of a text: of the
/// time found, the year, the name of the month and the day.
pub uninterp spec fn parsed_date(text: Seq<char>) -> Option<(i32, Seq<char>, u8)>;

/// `time::OffsetDateTime::parse` with the description `Rfc3339`; of the time
/// found, `year`, `month` as its name, and `day`. The result is named.
#[verifier::external_body]
fn parse_date(text: &str) -> (date: Option<(i32, String, u8)>)
    ensures
        match date {
            Some((year, month, day)) => parsed_date(text@) == Some((year, month@, day)),
            None => parsed_date(text@) is None,
        },
{
    match time::OffsetDateTime::parse(text, &time::format_description::well_known::Rfc3339) {
        Ok(time) => Some((time.year(), time.month().to_string(), time.day())),
        Err(_) => None,
    }
}

/// The query for the images to place: the make of a camera model, the images
/// of that camera, and the time of creation of each.
pub open spec fn image_rules() -> Seq<RuleView> {
    seq![
        RuleView {
            entity: RuleValView::Variable("model"@),
            attribute: RuleValView::Constant("device/manufacturer"@),
            value: RuleValView::Variable("make"@),
        },
        RuleView {
            entity: RuleValView::Variable("image"@),
            attribute: RuleValView::Constant("image/camera"@),
            value: RuleValView::Variable("model"@),
        },
        RuleView {
            entity: RuleValView::Variable("image"@),
            attribute: RuleValView::Constant("time/creation"@),
            value: RuleValView::Variable("time"@),
        },
    ]
}

/// The directory of a camera: make and model.
pub open spec fn camera_directory(make: Seq<char>, model: Seq<char>) -> Seq<char> {
    make + "/"@ + model
}

/// The directory of a day: year, name of the month, and day.
pub open spec fn day_directory(year: i32, month: Seq<char>, day: u8) -> Seq<char> {
    signed_decimal(year as int) + "/"@ + month + "/"@ + decimal(day as nat)
}

/// The data that a solution binds a value variable to.
pub open spec fn data_bound(set: VariableSetView, name: Seq<char>) -> Option<Seq<char>> {
    match bound_in(set.value, name) {
        Some(ValueView::Data(data)) => Some(data),
        _ => None,
    }
}

/// The day of a solution: what its time is parsed to.
pub open spec fn date_of(set: VariableSetView) -> Option<(i32, Seq<char>, u8)> {
    match data_bound(set, "time"@) {
        Some(time) => parsed_date(time),
        None => None,
    }
}

/// Where the image of a solution of [`image_rules`] is to lie, given what
/// the time of the solution was parsed to.
pub open spec fn placed(set: VariableSetView, date: Option<(i32, Seq<char>, u8)>) -> Result<
    (Seq<char>, Seq<char>, Seq<char>),
    HierarchyError,
> {
    match (
        data_bound(set, "make"@),
        data_bound(set, "time"@),
        bound_in(set.entity, "model"@),
        bound_in(set.entity, "image"@),
    ) {
        (Some(make), Some(_), Some(model), Some(image)) => match date {
            Some((year, month, day)) => Ok(
                (image, camera_directory(make, model), day_directory(year, month, day)),
            ),
            None => Err(HierarchyError::InvalidTime),
        },
        _ => Err(HierarchyError::Incomplete),
    }
}

/// The rules of the query for the images to place.
pub fn hierarchy_rules() -> (rules: Vec<Rule>)
    ensures
        rule_views(rules@) == image_rules(),
{
    let time = Variable::<Value>::new("time");
    let make = Variable::<Value>::new("make");
    let model = Variable::<Entity>::new("model");
    let image = Variable::<Entity>::new("image");
    let mut rules: Vec<Rule> = Vec::new();
    rules.push(Rule::new((&model).into(), "device/manufacturer".into(), (&make).into()));
    rules.push(Rule::new((&image).into(), "image/camera".into(), (&model).into()));
    rules.push(Rule::new((&image).into(), "time/creation".into(), (&time).into()));
    assert(rule_views(rules@) =~= image_rules());
    rules
}

fn data_of<'a>(set: &'a VariableSet, variable: &Variable<Value>) -> (data: Option<&'a str>)
    ensures
        match data {
            Some(text) => data_bound(set@, variable@) == Some(text@),
            None => data_bound(set@, variable@) is None,
        },
{
    match set.get(variable) {
        Some(Value::Data(data)) => Some(data.as_str()),
        _ => None,
    }
}

/// The two directories of an image, given the make and the model of its
/// camera and the day of its creation.
pub fn directories(make: &str, model: &str, year: i32, month: &str, day: u8) -> (found: (String, String))
    ensures
        found.0@ == camera_directory(make@, model@),
        found.1@ == day_directory(year, month@, day),
{
    let mut by_camera = String::from_str(make);
    by_camera.append("/");
    by_camera.append(model);
    let mut by_time = to_signed_decimal(year as i64);
    by_time.append("/");
    by_time.append(month);
    by_time.append("/");
    by_time.append(to_decimal(day as u64).as_str());
    (by_camera, by_time)
}

/// Where the image of a solution of the query is to lie.
pub fn placement(entry: &VariableSet) -> (found: Result<Placement, HierarchyError>)
    ensures
        match found {
            Ok(place) => placed(entry@, date_of(entry@)) == Ok::<_, HierarchyError>(
                (place.image@, place.by_camera@, place.by_time@),
            ),
            Err(error) => placed(entry@, date_of(entry@)) == Err::<(Seq<char>, Seq<char>, Seq<char>), _>(
                error,
            ),
        },
{
    let time_variable = Variable::<Value>::new("time");
    let make_variable = Variable::<Value>::new("make");
    let model_variable = Variable::<Entity>::new("model");
    let image_variable = Variable::<Entity>::new("image");
    let make = match data_of(entry, &make_variable) {
        Some(make) => make,
        None => {
            return Err(HierarchyError::Incomplete);
        },
    };
    let time = match data_of(entry, &time_variable) {
        Some(time) => time,
        None => {
            return Err(HierarchyError::Incomplete);
        },
    };
    let model = match entry.get(&model_variable) {
        Some(model) => model,
        None => {
            return Err(HierarchyError::Incomplete);
        },
    };
    let image = match entry.get(&image_variable) {
        Some(image) => image,
        None => {
            return Err(HierarchyError::Incomplete);
        },
    };
    let (year, month, day) = match parse_date(time) {
        Some(date) => date,
        None => {
            return Err(HierarchyError::InvalidTime);
        },
    };
    let (by_camera, by_time) = directories(make, model.0.as_str(), year, month.as_str(), day);
    Ok(Placement { image: image.0.clone(), by_camera, by_time })
}

} // verus!
