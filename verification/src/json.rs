//! The record model: a self-describing tree of values.

use vstd::prelude::*;
use crate::text::str_eq;

verus! {

/// A number that is neither an `i64` nor a `u64`. It is carried through as
/// the decoder made it; the library never looks inside.
#[verifier::external_type_specification]
#[verifier::external_body]
pub struct ExNumber(serde_json::Number);

/// `serde_json::Number::clone` returns a number equal to the one it was
/// given.
pub assume_specification[ <serde_json::Number as Clone>::clone ](
    number: &serde_json::Number,
) -> (copy: serde_json::Number)
    ensures
        copy == *number,
;

/// One routed value: null, a boolean, a number, a string, a sequence of
/// values, or a mapping from string keys to values in insertion order.
#[derive(Debug, PartialEq)]
pub enum Json {
    Null,
    Bool(bool),
    Int(i64),
    UInt(u64),
    Float(serde_json::Number),
    Str(String),
    Array(Vec<Json>),
    Object(Vec<(String, Json)>),
}

/// What a [`Json`] is, with strings as character sequences.
pub enum JsonView {
    Null,
    Bool(bool),
    Int(i64),
    UInt(u64),
    Float(serde_json::Number),
    Str(Seq<char>),
    Array(Seq<JsonView>),
    Object(Seq<(Seq<char>, JsonView)>),
}

/// The view of `json`: the same tree, its strings as character sequences.
pub open spec fn view_of(json: Json) -> JsonView
    decreases json,
{
    match json {
        Json::Null => JsonView::Null,
        Json::Bool(b) => JsonView::Bool(b),
        Json::Int(i) => JsonView::Int(i),
        Json::UInt(u) => JsonView::UInt(u),
        Json::Float(n) => JsonView::Float(n),
        Json::Str(s) => JsonView::Str(s@),
        Json::Array(items) => JsonView::Array(
            Seq::new(
                items.len() as nat,
                |i: int|
                    if 0 <= i < items.len() {
                        view_of(items[i])
                    } else {
                        JsonView::Null
                    },
            ),
        ),
        Json::Object(fields) => JsonView::Object(
            Seq::new(
                fields.len() as nat,
                |i: int|
                    if 0 <= i < fields.len() {
                        (fields[i].0@, view_of(fields[i].1))
                    } else {
                        (Seq::empty(), JsonView::Null)
                    },
            ),
        ),
    }
}

impl View for Json {
    type V = JsonView;

    open spec fn view(&self) -> JsonView {
        view_of(*self)
    }
}

/// The value under `key` in `fields`, looking from position `from` on: that
/// of the first field with this key.
pub open spec fn field_from(fields: Seq<(Seq<char>, JsonView)>, key: Seq<char>, from: int) -> Option<
    JsonView,
>
    decreases fields.len() - from,
{
    if from < 0 || from >= fields.len() {
        None
    } else if fields[from].0 == key {
        Some(fields[from].1)
    } else {
        field_from(fields, key, from + 1)
    }
}

/// The place of the first field with `key` in `fields`, looking from
/// position `from` on; the number of fields where there is none.
pub open spec fn place_from(fields: Seq<(Seq<char>, JsonView)>, key: Seq<char>, from: int) -> int
    decreases fields.len() - from,
{
    if from < 0 || from >= fields.len() {
        fields.len() as int
    } else if fields[from].0 == key {
        from
    } else {
        place_from(fields, key, from + 1)
    }
}

/// Where no field before `place` has the key and the one at `place` has
/// it, `place` is the place of the first.
pub proof fn lemma_first_place(
    fields: Seq<(Seq<char>, JsonView)>,
    key: Seq<char>,
    from: int,
    place: int,
)
    requires
        0 <= from <= place < fields.len(),
        fields[place].0 == key,
        forall|k: int| from <= k < place ==> fields[k].0 != key,
    ensures
        place_from(fields, key, from) == place,
    decreases place - from,
{
    if from < place {
        lemma_first_place(fields, key, from + 1, place);
    }
}

/// Where no field has the key, the place of the first is the number of
/// fields.
pub proof fn lemma_no_place(fields: Seq<(Seq<char>, JsonView)>, key: Seq<char>, from: int)
    requires
        0 <= from <= fields.len(),
        forall|k: int| from <= k < fields.len() ==> fields[k].0 != key,
    ensures
        place_from(fields, key, from) == fields.len(),
    decreases fields.len() - from,
{
    if from < fields.len() {
        lemma_no_place(fields, key, from + 1);
    }
}

impl JsonView {
    /// The immediate child under `key`: a mapping's first field with that
    /// key. Every other variant has no children to look up.
    pub open spec fn lookup(self, key: Seq<char>) -> Option<JsonView> {
        match self {
            JsonView::Object(fields) => field_from(fields, key, 0),
            _ => None,
        }
    }

    /// This mapping with the field `key` set to `value`: in the place of the
    /// first field with that key, or behind all fields where there is none.
    /// Every other variant stays as it is.
    pub open spec fn with(self, key: Seq<char>, value: JsonView) -> JsonView {
        match self {
            JsonView::Object(fields) => {
                let place = place_from(fields, key, 0);
                if place < fields.len() {
                    JsonView::Object(fields.update(place, (key, value)))
                } else {
                    JsonView::Object(fields.push((key, value)))
                }
            },
            _ => self,
        }
    }
}

/// No two of `fields` have the same key.
pub open spec fn keys_differ(fields: Seq<(Seq<char>, JsonView)>) -> bool {
    forall|i: int, j: int| 0 <= i < j < fields.len() ==> fields[i].0 != fields[j].0
}

/// Every mapping in `value`, at whatever depth, has each of its keys once.
pub open spec fn unique_keys(value: JsonView) -> bool
    decreases value,
{
    match value {
        JsonView::Array(items) => forall|i: int|
            0 <= i < items.len() ==> unique_keys(#[trigger] items[i]),
        JsonView::Object(fields) => keys_differ(fields) && forall|i: int|
            0 <= i < fields.len() ==> unique_keys((#[trigger] fields[i]).1),
        _ => true,
    }
}

/// The field that `with` sets is the one that `lookup` then finds, and every
/// other key leads to what it led to before.
pub proof fn lemma_with_sets_one_field(
    value: JsonView,
    key: Seq<char>,
    child: JsonView,
    other: Seq<char>,
)
    requires
        value is Object,
    ensures
        value.with(key, child).lookup(key) == Some(child),
        other != key ==> value.with(key, child).lookup(other) == value.lookup(other),
{
    let fields = value->Object_0;
    let place = place_from(fields, key, 0);
    lemma_place_is_first(fields, key, 0);
    let after = value.with(key, child)->Object_0;
    lemma_field_at_first_place(after, key, 0, place);
    if other != key {
        lemma_field_from_agrees(fields, after, other, 0);
    }
}

/// What `lookup` finds, said directly: the value of the field with the key
/// before which no field has the key; nothing where no field has it, or
/// where the value is no mapping.
pub proof fn lemma_lookup_is_the_first_field(value: JsonView, key: Seq<char>)
    ensures
        match value.lookup(key) {
            Some(child) => value matches JsonView::Object(fields) && exists|at: int|
                0 <= at < fields.len() && #[trigger] fields[at] == (key, child) && forall|k: int|
                    0 <= k < at ==> fields[k].0 != key,
            None => value matches JsonView::Object(fields) ==> forall|k: int|
                0 <= k < fields.len() ==> fields[k].0 != key,
        },
{
    if let JsonView::Object(fields) = value {
        let place = place_from(fields, key, 0);
        lemma_place_is_first(fields, key, 0);
        if place < fields.len() {
            lemma_field_at_first_place(fields, key, 0, place);
            assert(fields[place] == (key, fields[place].1));
        } else {
            lemma_no_field(fields, key, 0);
        }
    }
}

proof fn lemma_no_field(fields: Seq<(Seq<char>, JsonView)>, key: Seq<char>, from: int)
    requires
        0 <= from <= fields.len(),
        forall|k: int| from <= k < fields.len() ==> fields[k].0 != key,
    ensures
        field_from(fields, key, from).is_none(),
    decreases fields.len() - from,
{
    if from < fields.len() {
        lemma_no_field(fields, key, from + 1);
    }
}

/// `with` keeps the keys unique.
pub proof fn lemma_with_keeps_keys_unique(value: JsonView, key: Seq<char>, child: JsonView)
    requires
        unique_keys(value),
        unique_keys(child),
    ensures
        unique_keys(value.with(key, child)),
{
    if let JsonView::Object(fields) = value {
        let place = place_from(fields, key, 0);
        lemma_place_is_first(fields, key, 0);
        let after = value.with(key, child)->Object_0;
        assert(keys_differ(after)) by {
            assert forall|i: int, j: int| 0 <= i < j < after.len() implies after[i].0
                != after[j].0 by {
                if place < fields.len() {
                    assert(after[i].0 == fields[i].0);
                    assert(after[j].0 == fields[j].0);
                } else if j < fields.len() {
                    assert(after[i].0 == fields[i].0);
                    assert(after[j].0 == fields[j].0);
                }
            }
        }
        assert forall|i: int| 0 <= i < after.len() implies unique_keys(
            (#[trigger] after[i]).1,
        ) by {
            if i != place {
                assert(after[i] == fields[i]);
            }
        }
    }
}

/// `place_from` gives a place from `from` on, no field before it has the
/// key, and the one at it has, unless it is the number of fields.
pub proof fn lemma_place_is_first(fields: Seq<(Seq<char>, JsonView)>, key: Seq<char>, from: int)
    requires
        0 <= from <= fields.len(),
    ensures
        from <= place_from(fields, key, from) <= fields.len(),
        forall|k: int| from <= k < place_from(fields, key, from) ==> fields[k].0 != key,
        place_from(fields, key, from) < fields.len() ==> fields[place_from(fields, key, from)].0
            == key,
    decreases fields.len() - from,
{
    if from < fields.len() && fields[from].0 != key {
        lemma_place_is_first(fields, key, from + 1);
    }
}

proof fn lemma_field_at_first_place(
    fields: Seq<(Seq<char>, JsonView)>,
    key: Seq<char>,
    from: int,
    place: int,
)
    requires
        0 <= from <= place < fields.len(),
        fields[place].0 == key,
        forall|k: int| from <= k < place ==> fields[k].0 != key,
    ensures
        field_from(fields, key, from) == Some(fields[place].1),
    decreases place - from,
{
    if from < place {
        lemma_field_at_first_place(fields, key, from + 1, place);
    }
}

proof fn lemma_field_from_agrees(
    before: Seq<(Seq<char>, JsonView)>,
    after: Seq<(Seq<char>, JsonView)>,
    key: Seq<char>,
    from: int,
)
    requires
        0 <= from,
        before.len() <= after.len(),
        forall|k: int| 0 <= k < before.len() && before[k].0 == key ==> after[k] == before[k],
        forall|k: int| 0 <= k < before.len() && before[k].0 != key ==> after[k].0 != key,
        forall|k: int| before.len() <= k < after.len() ==> after[k].0 != key,
    ensures
        field_from(after, key, from) == field_from(before, key, from),
    decreases after.len() - from,
{
    if from < after.len() {
        lemma_field_from_agrees(before, after, key, from + 1);
    }
}

impl JsonView {
    /// The boolean, if this is one.
    pub open spec fn as_bool(self) -> Option<bool> {
        match self {
            JsonView::Bool(b) => Some(b),
            _ => None,
        }
    }

    /// The number as an `i64`, if this is a whole number that fits.
    pub open spec fn as_i64(self) -> Option<i64> {
        match self {
            JsonView::Int(i) => Some(i),
            JsonView::UInt(u) => if u <= i64::MAX {
                Some(u as i64)
            } else {
                None
            },
            _ => None,
        }
    }

    /// The number as a `u64`, if this is a whole number that fits.
    pub open spec fn as_u64(self) -> Option<u64> {
        match self {
            JsonView::UInt(u) => Some(u),
            JsonView::Int(i) => if i >= 0 {
                Some(i as u64)
            } else {
                None
            },
            _ => None,
        }
    }

    /// The number, if this is one that is not whole.
    pub open spec fn as_float(self) -> Option<serde_json::Number> {
        match self {
            JsonView::Float(n) => Some(n),
            _ => None,
        }
    }

    /// The text, if this is a string.
    pub open spec fn as_str(self) -> Option<Seq<char>> {
        match self {
            JsonView::Str(s) => Some(s),
            _ => None,
        }
    }
}

impl Json {
    /// The immediate child under `key`, if this is a mapping that has one.
    pub fn lookup(&self, key: &str) -> (found: Option<&Json>)
        ensures
            match found {
                Some(child) => self@.lookup(key@) == Some(child@),
                None => self@.lookup(key@).is_none(),
            },
    {
        match self {
            Json::Object(fields) => {
                let ghost views = self@->Object_0;
                let mut i: usize = 0;
                while i < fields.len()
                    invariant
                        i <= fields.len(),
                        self@ == JsonView::Object(views),
                        views.len() == fields.len(),
                        field_from(views, key@, 0) == field_from(views, key@, i as int),
                        forall|k: int|
                            0 <= k < fields.len() ==> #[trigger] views[k] == (
                                fields[k].0@,
                                fields[k].1@,
                            ),
                    decreases fields.len() - i,
                {
                    if str_eq(fields[i].0.as_str(), key) {
                        return Some(&fields[i].1);
                    }
                    i += 1;
                }
                None
            },
            _ => None,
        }
    }
}

impl Json {
    pub fn is_null(&self) -> (yes: bool)
        ensures
            yes == (self@ is Null),
    {
        match self {
            Json::Null => true,
            _ => false,
        }
    }

    pub fn is_string(&self) -> (yes: bool)
        ensures
            yes == (self@ is Str),
    {
        match self {
            Json::Str(_) => true,
            _ => false,
        }
    }

    pub fn is_array(&self) -> (yes: bool)
        ensures
            yes == (self@ is Array),
    {
        match self {
            Json::Array(_) => true,
            _ => false,
        }
    }

    pub fn is_object(&self) -> (yes: bool)
        ensures
            yes == (self@ is Object),
    {
        match self {
            Json::Object(_) => true,
            _ => false,
        }
    }

    /// The boolean, if this is one.
    pub fn as_bool(&self) -> (value: Option<bool>)
        ensures
            value == self@.as_bool(),
    {
        match self {
            Json::Bool(b) => Some(*b),
            _ => None,
        }
    }

    /// The number as an `i64`, if this is a whole number that fits.
    pub fn as_i64(&self) -> (value: Option<i64>)
        ensures
            value == self@.as_i64(),
    {
        match self {
            Json::Int(i) => Some(*i),
            Json::UInt(u) => if *u <= 0x7fff_ffff_ffff_ffff {
                Some(*u as i64)
            } else {
                None
            },
            _ => None,
        }
    }

    /// The number as a `u64`, if this is a whole number that fits.
    pub fn as_u64(&self) -> (value: Option<u64>)
        ensures
            value == self@.as_u64(),
    {
        match self {
            Json::UInt(u) => Some(*u),
            Json::Int(i) => if *i >= 0 {
                Some(*i as u64)
            } else {
                None
            },
            _ => None,
        }
    }

    /// The number, if this is one that is not whole.
    pub fn as_float(&self) -> (value: Option<&serde_json::Number>)
        ensures
            match value {
                Some(number) => self@.as_float() == Some(*number),
                None => self@.as_float().is_none(),
            },
    {
        match self {
            Json::Float(n) => Some(n),
            _ => None,
        }
    }

    /// The text, if this is a string.
    pub fn as_str(&self) -> (value: Option<&str>)
        ensures
            match value {
                Some(text) => self@.as_str() == Some(text@),
                None => self@.as_str().is_none(),
            },
    {
        match self {
            Json::Str(s) => Some(s.as_str()),
            _ => None,
        }
    }

    /// A mapping with this one field.
    pub fn object(key: &str, value: Json) -> (made: Json)
        ensures
            made@ == JsonView::Object(seq![(key@, value@)]),
            unique_keys(value@) ==> unique_keys(made@),
    {
        let mut fields: Vec<(String, Json)> = Vec::new();
        fields.push((key.to_owned(), value));
        let made = Json::Object(fields);
        assert(made@->Object_0 =~= seq![(key@, value@)]);
        made
    }

    /// The place of the first field with `key`; the number of fields where
    /// there is none, and 0 for what is no mapping.
    fn place(&self, key: &str) -> (place: usize)
        ensures
            self@ matches JsonView::Object(fields) ==> place == place_from(fields, key@, 0),
    {
        match self {
            Json::Object(fields) => {
                let ghost views = self@->Object_0;
                let mut i: usize = 0;
                while i < fields.len()
                    invariant
                        i <= fields.len(),
                        self@ == JsonView::Object(views),
                        views.len() == fields.len(),
                        forall|k: int|
                            0 <= k < fields.len() ==> #[trigger] views[k] == (
                                fields[k].0@,
                                fields[k].1@,
                            ),
                        forall|k: int| 0 <= k < i ==> views[k].0 != key@,
                    decreases fields.len() - i,
                {
                    if str_eq(fields[i].0.as_str(), key) {
                        proof {
                            lemma_first_place(views, key@, 0, i as int);
                        }
                        return i;
                    }
                    i += 1;
                }
                proof {
                    lemma_no_place(views, key@, 0);
                }
                i
            },
            _ => 0,
        }
    }

    /// Sets the field `key` to `value`: in place where the mapping has the
    /// key, behind the other fields where it has not. What is no mapping
    /// stays as it is.
    pub fn insert(&mut self, key: &str, value: Json)
        ensures
            final(self)@ == old(self)@.with(key@, value@),
            unique_keys(old(self)@) && unique_keys(value@) ==> unique_keys(final(self)@),
    {
        proof {
            if unique_keys(old(self)@) && unique_keys(value@) {
                lemma_with_keeps_keys_unique(old(self)@, key@, value@);
            }
        }
        let place = self.place(key);
        match self {
            Json::Object(fields) => {
                let ghost views = old(self)@->Object_0;
                if place < fields.len() {
                    fields.set(place, (key.to_owned(), value));
                    assert(Json::Object(*fields)@->Object_0 =~= views.update(
                        place as int,
                        (key@, value@),
                    ));
                } else {
                    fields.push((key.to_owned(), value));
                    assert(Json::Object(*fields)@->Object_0 =~= views.push((key@, value@)));
                }
            },
            _ => {},
        }
    }
}

/// The views of `values`, in order.
pub open spec fn values_view(values: Seq<Json>) -> Seq<JsonView> {
    values.map_values(|value: Json| value@)
}

/// A copy of `values` with the same views.
pub fn clone_values(values: &Vec<Json>) -> (copy: Vec<Json>)
    ensures
        values_view(copy@) == values_view(values@),
{
    let mut copy: Vec<Json> = Vec::new();
    let mut i: usize = 0;
    while i < values.len()
        invariant
            i <= values.len(),
            copy.len() == i,
            forall|k: int| 0 <= k < i ==> copy[k]@ == values[k]@,
        decreases values.len() - i,
    {
        copy.push(values[i].clone());
        i += 1;
    }
    assert(values_view(copy@) =~= values_view(values@));
    copy
}

impl Clone for Json {
    /// A copy with the same view.
    fn clone(&self) -> (copy: Json)
        ensures
            copy@ == self@,
        decreases self,
    {
        match self {
            Json::Null => Json::Null,
            Json::Bool(b) => Json::Bool(*b),
            Json::Int(i) => Json::Int(*i),
            Json::UInt(u) => Json::UInt(*u),
            Json::Float(n) => Json::Float(n.clone()),
            Json::Str(s) => Json::Str(s.clone()),
            Json::Array(items) => {
                let mut out: Vec<Json> = Vec::new();
                let mut i: usize = 0;
                while i < items.len()
                    invariant
                        *self == Json::Array(*items),
                        i <= items.len(),
                        out.len() == i,
                        forall|k: int| 0 <= k < i ==> out[k]@ == items[k]@,
                    decreases items.len() - i,
                {
                    assert(decreases_to!(*items => items[i as int]));
                    assert(self->Array_0 == *items);
                    out.push(items[i].clone());
                    i += 1;
                }
                let copy = Json::Array(out);
                assert(copy@->Array_0 =~= self@->Array_0);
                copy
            },
            Json::Object(fields) => {
                let mut out: Vec<(String, Json)> = Vec::new();
                let mut i: usize = 0;
                while i < fields.len()
                    invariant
                        *self == Json::Object(*fields),
                        i <= fields.len(),
                        out.len() == i,
                        forall|k: int|
                            0 <= k < i ==> out[k].0@ == fields[k].0@ && out[k].1@ == fields[k].1@,
                    decreases fields.len() - i,
                {
                    assert(decreases_to!(*fields => fields[i as int]));
                    assert(self->Object_0 == *fields);
                    out.push((fields[i].0.clone(), fields[i].1.clone()));
                    i += 1;
                }
                let copy = Json::Object(out);
                assert(copy@->Object_0 =~= self@->Object_0);
                copy
            },
        }
    }
}

} // verus!
