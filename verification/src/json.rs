//! JSON values as the bridge sends and receives them.

use vstd::prelude::*;

verus! {

/// A JSON number: a non-negative integer, a negative integer, or any other
/// number kept as its decimal text.
#[derive(Clone, Debug, PartialEq, Eq)]
pub enum JsonNumber {
    Unsigned(u64),
    Negative(i64),
    Fraction(String),
}

/// A JSON value. An object is the list of its fields in the order they were
/// read; a lookup by key takes the first field of that name.
#[derive(Debug, PartialEq, Eq)]
pub enum Json {
    Null,
    Bool(bool),
    Number(JsonNumber),
    Text(String),
    Array(Vec<Json>),
    Object(Vec<(String, Json)>),
}

/// The mathematical value of a [`JsonNumber`].
pub enum JsonNumberView {
    Unsigned(u64),
    Negative(i64),
    Fraction(Seq<char>),
}

/// The mathematical value of a [`Json`].
pub enum JsonView {
    Null,
    Bool(bool),
    Number(JsonNumberView),
    Text(Seq<char>),
    Array(Seq<JsonView>),
    Object(Seq<(Seq<char>, JsonView)>),
}

impl View for JsonNumber {
    type V = JsonNumberView;

    open spec fn view(&self) -> JsonNumberView {
        match self {
            JsonNumber::Unsigned(n) => JsonNumberView::Unsigned(*n),
            JsonNumber::Negative(n) => JsonNumberView::Negative(*n),
            JsonNumber::Fraction(t) => JsonNumberView::Fraction(t@),
        }
    }
}

/// The mathematical value of `json`, level by level.
pub open spec fn json_view(json: Json) -> JsonView
    decreases json,
{
    match json {
        Json::Null => JsonView::Null,
        Json::Bool(b) => JsonView::Bool(b),
        Json::Number(n) => JsonView::Number(n@),
        Json::Text(t) => JsonView::Text(t@),
        Json::Array(items) => JsonView::Array(
            Seq::new(
                items.len() as nat,
                |i: int|
                    if 0 <= i < items.len() {
                        json_view(items[i])
                    } else {
                        JsonView::Null
                    },
            ),
        ),
        Json::Object(fields) => JsonView::Object(
            Seq::new(
                fields.len() as nat,
                |i: int|
                    if 0 <= i < fields.len() {
                        (fields[i].0@, json_view(fields[i].1))
                    } else {
                        (Seq::empty(), JsonView::Null)
                    },
            ),
        ),
    }
}

impl View for Json {
    type V = JsonView;

    open spec fn view(&self) -> JsonView {
        json_view(*self)
    }
}

/// The value of the first field of `fields` at or after position `from` whose
/// name is `key`.
pub open spec fn field_from(fields: Seq<(Seq<char>, JsonView)>, key: Seq<char>, from: int) -> Option<
    JsonView,
>
    decreases fields.len() - from,
{
    if from < 0 || from >= fields.len() {
        None
    } else if fields[from].0 == key {
        Some(fields[from].1)
    } else {
        field_from(fields, key, from + 1)
    }
}

impl JsonNumberView {
    /// The number as a signed 64-bit integer, where it is one.
    pub open spec fn as_i64(self) -> Option<i64> {
        match self {
            JsonNumberView::Unsigned(n) => if n <= i64::MAX {
                Some(n as i64)
            } else {
                None
            },
            JsonNumberView::Negative(n) => Some(n),
            JsonNumberView::Fraction(_) => None,
        }
    }

    /// The number as an unsigned 64-bit integer, where it is one.
    pub open spec fn as_u64(self) -> Option<u64> {
        match self {
            JsonNumberView::Unsigned(n) => Some(n),
            _ => None,
        }
    }
}

impl JsonView {
    /// Element `i` of an array; `None` for any other value or index.
    pub open spec fn item(self, i: int) -> Option<JsonView> {
        match self {
            JsonView::Array(items) => if 0 <= i < items.len() {
                Some(items[i])
            } else {
                None
            },
            _ => None,
        }
    }

    /// The field `key` of an object; `None` for any other value or key.
    pub open spec fn field(self, key: Seq<char>) -> Option<JsonView> {
        match self {
            JsonView::Object(fields) => field_from(fields, key, 0),
            _ => None,
        }
    }

    /// The text of a string value.
    pub open spec fn as_text(self) -> Option<Seq<char>> {
        match self {
            JsonView::Text(t) => Some(t),
            _ => None,
        }
    }

    /// The truth value of a boolean.
    pub open spec fn as_bool(self) -> Option<bool> {
        match self {
            JsonView::Bool(b) => Some(b),
            _ => None,
        }
    }

    /// The number held, whatever its form.
    pub open spec fn as_number(self) -> Option<JsonNumberView> {
        match self {
            JsonView::Number(n) => Some(n),
            _ => None,
        }
    }

    /// A number that is a signed 64-bit integer.
    pub open spec fn as_i64(self) -> Option<i64> {
        match self {
            JsonView::Number(n) => n.as_i64(),
            _ => None,
        }
    }

    /// A number that is an unsigned 64-bit integer.
    pub open spec fn as_u64(self) -> Option<u64> {
        match self {
            JsonView::Number(n) => n.as_u64(),
            _ => None,
        }
    }

    /// The field names of an object, in order.
    pub open spec fn keys(self) -> Option<Seq<Seq<char>>> {
        match self {
            JsonView::Object(fields) => Some(Seq::new(fields.len(), |i: int| fields[i].0)),
            _ => None,
        }
    }
}

/// The mathematical value behind an optional reference.
pub open spec fn opt_view(value: Option<&Json>) -> Option<JsonView> {
    match value {
        Some(json) => Some(json@),
        None => None,
    }
}

/// Looks one level into an optional value: the field `key` of `value`.
pub open spec fn then_field(value: Option<JsonView>, key: Seq<char>) -> Option<JsonView> {
    match value {
        Some(v) => v.field(key),
        None => None,
    }
}

/// The mathematical value of a list of fields.
pub open spec fn fields_view(fields: Seq<(String, Json)>) -> Seq<(Seq<char>, JsonView)> {
    Seq::new(fields.len(), |i: int| (fields[i].0@, fields[i].1@))
}

/// The view of an array is the sequence of its elements' views.
pub proof fn lemma_array_view(items: Vec<Json>)
    ensures
        Json::Array(items)@ is Array,
        Json::Array(items)@->Array_0.len() == items.len(),
        forall|i: int| 0 <= i < items.len() ==> Json::Array(items)@->Array_0[i] == #[trigger] items[i]@,
{
}

/// The view of an object is the sequence of its fields' views.
pub proof fn lemma_object_view(fields: Vec<(String, Json)>)
    ensures
        Json::Object(fields)@ is Object,
        Json::Object(fields)@->Object_0.len() == fields.len(),
        forall|i: int|
            0 <= i < fields.len() ==> Json::Object(fields)@->Object_0[i] == (
                (#[trigger] fields[i]).0@,
                fields[i].1@,
            ),
{
}

impl JsonNumber {
    /// A copy of the number.
    pub fn duplicate(&self) -> (r: JsonNumber)
        ensures
            r@ == self@,
    {
        match self {
            JsonNumber::Unsigned(n) => JsonNumber::Unsigned(*n),
            JsonNumber::Negative(n) => JsonNumber::Negative(*n),
            JsonNumber::Fraction(t) => JsonNumber::Fraction(t.clone()),
        }
    }

    /// The number as a signed 64-bit integer, where it is one.
    pub fn as_i64(&self) -> (r: Option<i64>)
        ensures
            r == self@.as_i64(),
    {
        match self {
            JsonNumber::Unsigned(n) => if *n <= i64::MAX as u64 {
                Some(*n as i64)
            } else {
                None
            },
            JsonNumber::Negative(n) => Some(*n),
            JsonNumber::Fraction(_) => None,
        }
    }

    /// The number as an unsigned 64-bit integer, where it is one.
    pub fn as_u64(&self) -> (r: Option<u64>)
        ensures
            r == self@.as_u64(),
    {
        match self {
            JsonNumber::Unsigned(n) => Some(*n),
            _ => None,
        }
    }
}

impl Json {
    /// A string value.
    pub fn text(value: &str) -> (r: Json)
        ensures
            r@ == JsonView::Text(value@),
    {
        Json::Text(value.to_owned())
    }

    /// A number that is a non-negative integer.
    pub fn unsigned(value: u64) -> (r: Json)
        ensures
            r@ == JsonView::Number(JsonNumberView::Unsigned(value)),
    {
        Json::Number(JsonNumber::Unsigned(value))
    }

    /// An array of two numbers.
    pub fn pair(first: &JsonNumber, second: &JsonNumber) -> (r: Json)
        ensures
            r@ == JsonView::Array(seq![JsonView::Number(first@), JsonView::Number(second@)]),
    {
        let mut items: Vec<Json> = Vec::new();
        items.push(Json::Number(first.duplicate()));
        items.push(Json::Number(second.duplicate()));
        proof {
            lemma_array_view(items);
            assert(items[0]@ == JsonView::Number(first@));
            assert(items[1]@ == JsonView::Number(second@));
            assert(Json::Array(items)@->Array_0 =~= seq![
                JsonView::Number(first@),
                JsonView::Number(second@),
            ]);
        }
        Json::Array(items)
    }

    /// An object of the given fields, in their order.
    pub fn object(fields: Vec<(String, Json)>) -> (r: Json)
        ensures
            r@ == JsonView::Object(fields_view(fields@)),
    {
        proof {
            lemma_object_view(fields);
            assert(Json::Object(fields)@->Object_0 =~= fields_view(fields@));
        }
        Json::Object(fields)
    }

    /// Element `index` of an array.
    pub fn at(&self, index: usize) -> (r: Option<&Json>)
        ensures
            opt_view(r) == self@.item(index as int),
    {
        match self {
            Json::Array(items) => if index < items.len() {
                proof {
                    lemma_array_view(*items);
                }
                Some(&items[index])
            } else {
                None
            },
            _ => None,
        }
    }

    /// The first field named `key` of an object.
    pub fn get(&self, key: &str) -> (r: Option<&Json>)
        ensures
            opt_view(r) == self@.field(key@),
    {
        match self {
            Json::Object(fields) => {
                let wanted = key.to_owned();
                let ghost all = self@->Object_0;
                proof {
                    lemma_object_view(*fields);
                }
                let mut i: usize = 0;
                while i < fields.len()
                    invariant
                        i <= fields.len(),
                        wanted@ == key@,
                        self@ == JsonView::Object(all),
                        all.len() == fields.len(),
                        forall|k: int|
                            0 <= k < fields.len() ==> all[k] == ((#[trigger] fields[k]).0@, fields[k].1@),
                        field_from(all, key@, 0) == field_from(all, key@, i as int),
                    decreases fields.len() - i,
                {
                    if fields[i].0 == wanted {
                        assert(all[i as int].0 == key@);
                        assert(field_from(all, key@, i as int) == Some(all[i as int].1));
                        return Some(&fields[i].1);
                    }
                    i += 1;
                }
                None
            },
            _ => None,
        }
    }

    /// The text of a string value.
    pub fn as_str(&self) -> (r: Option<&str>)
        ensures
            match r {
                Some(t) => self@.as_text() == Some(t@),
                None => self@.as_text() is None,
            },
    {
        match self {
            Json::Text(t) => Some(t.as_str()),
            _ => None,
        }
    }

    /// The truth value of a boolean.
    pub fn as_bool(&self) -> (r: Option<bool>)
        ensures
            r == self@.as_bool(),
    {
        match self {
            Json::Bool(b) => Some(*b),
            _ => None,
        }
    }

    /// A number that is a signed 64-bit integer.
    pub fn as_i64(&self) -> (r: Option<i64>)
        ensures
            r == self@.as_i64(),
    {
        match self {
            Json::Number(n) => n.as_i64(),
            _ => None,
        }
    }

    /// A number that is an unsigned 64-bit integer.
    pub fn as_u64(&self) -> (r: Option<u64>)
        ensures
            r == self@.as_u64(),
    {
        match self {
            Json::Number(n) => n.as_u64(),
            _ => None,
        }
    }
}

} // verus!
