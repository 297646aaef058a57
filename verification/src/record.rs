//! What can be asked of a value, and of a record.

use vstd::prelude::*;
use crate::json::{Json, JsonView};

verus! {

/// A value that says what it holds.
pub trait Datum {
    /// What the value is.
    spec fn model(&self) -> JsonView;

    fn is_none(&self) -> (yes: bool)
        ensures
            yes == (self.model() is Null),
    ;

    fn as_bool(&self) -> (value: Option<bool>)
        ensures
            value == self.model().as_bool(),
    ;

    fn as_i64(&self) -> (value: Option<i64>)
        ensures
            value == self.model().as_i64(),
    ;

    fn as_u64(&self) -> (value: Option<u64>)
        ensures
            value == self.model().as_u64(),
    ;

    /// The number, if this is one that is not whole.
    fn as_f64(&self) -> (value: Option<&serde_json::Number>)
        ensures
            match value {
                Some(number) => self.model().as_float() == Some(*number),
                None => self.model().as_float().is_none(),
            },
    ;

    fn as_str(&self) -> (value: Option<&str>)
        ensures
            match value {
                Some(text) => self.model().as_str() == Some(text@),
                None => self.model().as_str().is_none(),
            },
    ;

    /// The items, in order, if this is a sequence.
    fn iter(&self) -> (items: Option<Vec<&Json>>)
        ensures
            match items {
                Some(items) => self.model() matches JsonView::Array(views) && items.len()
                    == views.len() && forall|i: int|
                    0 <= i < items.len() ==> (#[trigger] items[i])@ == views[i],
                None => !(self.model() is Array),
            },
    ;

    /// The fields, in order, if this is a mapping.
    fn iter_map(&self) -> (fields: Option<Vec<(&str, &Json)>>)
        ensures
            match fields {
                Some(fields) => self.model() matches JsonView::Object(views) && fields.len()
                    == views.len() && forall|i: int|
                    0 <= i < fields.len() ==> (#[trigger] fields[i]).0@ == views[i].0
                        && fields[i].1@ == views[i].1,
                None => !(self.model() is Object),
            },
    ;
}

/// A record: a mapping with a message.
pub trait Record {
    /// What the record is.
    spec fn model(&self) -> JsonView;

    /// Returns an event message.
    ///
    /// Every logging event must contain some message.
    fn message(&self) -> (message: &str)
        requires
            self.model().lookup("message"@) matches Some(JsonView::Str(_)),
        ensures
            self.model().lookup("message"@) == Some(JsonView::Str(message@)),
    ;

    /// The time of the event in nanoseconds, where the record has one as a
    /// number. It is kept as a number, to be written out only where a
    /// reader asks for it.
    fn timestamp(&self) -> (timestamp: Option<i64>)
        ensures
            timestamp == match self.model().lookup("timestamp"@) {
                Some(value) => value.as_i64(),
                None => None,
            },
    ;

    /// The fields, in order; none for what is no mapping.
    fn iter(&self) -> (fields: Vec<(&str, &Json)>)
        ensures
            match self.model() {
                JsonView::Object(views) => fields.len() == views.len() && forall|i: int|
                    0 <= i < fields.len() ==> (#[trigger] fields[i]).0@ == views[i].0
                        && fields[i].1@ == views[i].1,
                _ => fields.len() == 0,
            },
    ;
}

impl Datum for Json {
    open spec fn model(&self) -> JsonView {
        self@
    }

    fn is_none(&self) -> (yes: bool) {
        self.is_null()
    }

    fn as_bool(&self) -> (value: Option<bool>) {
        Json::as_bool(self)
    }

    fn as_i64(&self) -> (value: Option<i64>) {
        Json::as_i64(self)
    }

    fn as_u64(&self) -> (value: Option<u64>) {
        Json::as_u64(self)
    }

    fn as_f64(&self) -> (value: Option<&serde_json::Number>) {
        self.as_float()
    }

    fn as_str(&self) -> (value: Option<&str>) {
        Json::as_str(self)
    }

    fn iter(&self) -> (items: Option<Vec<&Json>>) {
        match self {
            Json::Array(values) => {
                let mut items: Vec<&Json> = Vec::new();
                let mut i: usize = 0;
                while i < values.len()
                    invariant
                        i <= values.len(),
                        items.len() == i,
                        forall|k: int| 0 <= k < i ==> (#[trigger] items[k])@ == values[k]@,
                    decreases values.len() - i,
                {
                    items.push(&values[i]);
                    i += 1;
                }
                Some(items)
            },
            _ => None,
        }
    }

    fn iter_map(&self) -> (fields: Option<Vec<(&str, &Json)>>) {
        match self {
            Json::Object(pairs) => {
                let mut fields: Vec<(&str, &Json)> = Vec::new();
                let mut i: usize = 0;
                while i < pairs.len()
                    invariant
                        i <= pairs.len(),
                        fields.len() == i,
                        forall|k: int|
                            0 <= k < i ==> (#[trigger] fields[k]).0@ == pairs[k].0@
                                && fields[k].1@ == pairs[k].1@,
                    decreases pairs.len() - i,
                {
                    fields.push((pairs[i].0.as_str(), &pairs[i].1));
                    i += 1;
                }
                Some(fields)
            },
            _ => None,
        }
    }
}

impl Record for Json {
    open spec fn model(&self) -> JsonView {
        self@
    }

    fn message(&self) -> (message: &str) {
        match self.lookup("message") {
            Some(Json::Str(text)) => text.as_str(),
            _ => vstd::pervasive::unreached(),
        }
    }

    fn timestamp(&self) -> (timestamp: Option<i64>) {
        match self.lookup("timestamp") {
            Some(value) => Json::as_i64(value),
            None => None,
        }
    }

    fn iter(&self) -> (fields: Vec<(&str, &Json)>) {
        match Datum::iter_map(self) {
            Some(fields) => fields,
            None => Vec::new(),
        }
    }
}

} // verus!
