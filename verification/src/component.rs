//! What sources and sinks have in common: how they read their
//! configuration, and how they fail to.

use vstd::prelude::*;
use crate::json::{Json, JsonView};
use crate::template::ParseError;

verus! {

/// Why a component refused to be made from its configuration.
#[derive(Debug, PartialEq)]
pub enum FactoryError {
    /// The configuration lacks this field.
    MissingField(String),
    /// The field is there and holds a value of the wrong kind.
    InvalidField(String),
    /// The least length of a random message is above the greatest.
    InvalidRange(u16, u16),
    /// The file sink's path is no template.
    Path(ParseError),
    /// The file sink's pattern is no template.
    Pattern(ParseError),
    /// The component was made and could not start; these are the words of
    /// whatever stopped it.
    Start(String),
}

/// What a [`FactoryError`] is, with strings as character sequences.
pub enum FactoryErrorView {
    MissingField(Seq<char>),
    InvalidField(Seq<char>),
    InvalidRange(u16, u16),
    Path(ParseError),
    Pattern(ParseError),
    Start(Seq<char>),
}

impl View for FactoryError {
    type V = FactoryErrorView;

    open spec fn view(&self) -> FactoryErrorView {
        match self {
            FactoryError::MissingField(name) => FactoryErrorView::MissingField(name@),
            FactoryError::InvalidField(name) => FactoryErrorView::InvalidField(name@),
            FactoryError::InvalidRange(min, max) => FactoryErrorView::InvalidRange(*min, *max),
            FactoryError::Path(error) => FactoryErrorView::Path(*error),
            FactoryError::Pattern(error) => FactoryErrorView::Pattern(*error),
            FactoryError::Start(words) => FactoryErrorView::Start(words@),
        }
    }
}

/// The string under `name` in `config`: it has to be there, and a string.
pub open spec fn string_field(config: JsonView, name: Seq<char>) -> Result<
    Seq<char>,
    FactoryErrorView,
> {
    match config.lookup(name) {
        None => Err(FactoryErrorView::MissingField(name)),
        Some(JsonView::Str(text)) => Ok(text),
        Some(_) => Err(FactoryErrorView::InvalidField(name)),
    }
}

/// The number that `value` holds, if it is a whole number from 0 to 65535.
pub open spec fn small_number(value: JsonView) -> Option<u16> {
    match value {
        JsonView::Int(i) => if 0 <= i <= u16::MAX {
            Some(i as u16)
        } else {
            None
        },
        JsonView::UInt(u) => if u <= u16::MAX {
            Some(u as u16)
        } else {
            None
        },
        _ => None,
    }
}

/// The string under `name` in `config`.
pub fn get_string<'c>(config: &'c Json, name: &str) -> (found: Result<&'c str, FactoryError>)
    ensures
        match found {
            Ok(text) => string_field(config@, name@) == Ok::<Seq<char>, FactoryErrorView>(text@),
            Err(error) => string_field(config@, name@) == Err::<Seq<char>, FactoryErrorView>(
                error@,
            ),
        },
{
    match config.lookup(name) {
        None => Err(FactoryError::MissingField(name.to_owned())),
        Some(Json::Str(text)) => Ok(text.as_str()),
        Some(_) => Err(FactoryError::InvalidField(name.to_owned())),
    }
}

/// The whole number from 0 to 65535 that `value` holds.
pub fn get_small_number(value: &Json) -> (number: Option<u16>)
    ensures
        number == small_number(value@),
{
    match value {
        Json::Int(i) => if 0 <= *i && *i <= 65535 {
            Some(*i as u16)
        } else {
            None
        },
        Json::UInt(u) => if *u <= 65535 {
            Some(*u as u16)
        } else {
            None
        },
        _ => None,
    }
}

/// The two items of `value`, if it is a sequence of exactly two.
pub open spec fn pair(value: JsonView) -> Option<(JsonView, JsonView)> {
    match value {
        JsonView::Array(items) => if items.len() == 2 {
            Some((items[0], items[1]))
        } else {
            None
        },
        _ => None,
    }
}

/// The two items of `value`, if it is a sequence of exactly two.
pub fn get_pair(value: &Json) -> (items: Option<(&Json, &Json)>)
    ensures
        match items {
            Some((first, second)) => pair(value@) == Some((first@, second@)),
            None => pair(value@).is_none(),
        },
{
    match value {
        Json::Array(items) => if items.len() == 2 {
            Some((&items[0], &items[1]))
        } else {
            None
        },
        _ => None,
    }
}

} // verus!
