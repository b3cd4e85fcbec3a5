//! JSON values as the node reads them.

use crate::number::Double;
use crate::text::same;
use vstd::prelude::*;

verus! {

/// A JSON number in the two readings that the node makes of it.
#[derive(Clone, Copy, Debug, PartialEq, Eq, Structural)]
pub struct JsonNumber {
    /// The number as a non-negative integer of 64 bits, where it is written as
    /// one.
    pub unsigned: Option<u64>,
    /// The number in double precision.
    pub value: Double,
}

/// A JSON value. The fields of an object stand in a fixed order; a field is
/// found by its first occurrence.
#[derive(Debug)]
pub enum Json {
    Null,
    Bool(bool),
    Number(JsonNumber),
    Text(String),
    Array(Vec<Json>),
    Object(Vec<(String, Json)>),
}

/// The value of the first field of that name.
pub open spec fn field_of(fields: Seq<(String, Json)>, key: Seq<char>) -> Option<Json>
    decreases fields.len(),
{
    if fields.len() == 0 {
        None
    } else if fields[0].0@ == key {
        Some(fields[0].1)
    } else {
        field_of(fields.drop_first(), key)
    }
}

impl Json {
    /// The value of a field; only objects have fields.
    pub open spec fn field(self, key: Seq<char>) -> Option<Json> {
        match self {
            Json::Object(fields) => field_of(fields@, key),
            _ => None,
        }
    }

    /// The characters of a string value.
    pub open spec fn text(self) -> Option<Seq<char>> {
        match self {
            Json::Text(s) => Some(s@),
            _ => None,
        }
    }

    /// The items of an array.
    pub open spec fn items(self) -> Option<Seq<Json>> {
        match self {
            Json::Array(v) => Some(v@),
            _ => None,
        }
    }

    /// A boolean value.
    pub open spec fn boolean(self) -> Option<bool> {
        match self {
            Json::Bool(b) => Some(b),
            _ => None,
        }
    }

    /// A number in double precision.
    pub open spec fn number(self) -> Option<Double> {
        match self {
            Json::Number(n) => Some(n.value),
            _ => None,
        }
    }

    /// A number as a non-negative integer.
    pub open spec fn unsigned(self) -> Option<u64> {
        match self {
            Json::Number(n) => n.unsigned,
            _ => None,
        }
    }

    /// The characters of the string in a field, where there is one.
    pub open spec fn text_field(self, key: Seq<char>) -> Option<Seq<char>> {
        match self.field(key) {
            Some(v) => v.text(),
            None => None,
        }
    }

    /// The non-negative integer in a field, where there is one.
    pub open spec fn unsigned_field(self, key: Seq<char>) -> Option<u64> {
        match self.field(key) {
            Some(v) => v.unsigned(),
            None => None,
        }
    }

    /// Finds a field.
    pub fn get(&self, key: &str) -> (r: Option<&Json>)
        ensures
            match r {
                Some(v) => self.field(key@) == Some(*v),
                None => self.field(key@) is None,
            },
    {
        match self {
            Json::Object(fields) => {
                let mut i: usize = 0;
                assert(fields@.skip(0) =~= fields@);
                while i < fields.len()
                    invariant
                        i <= fields@.len(),
                        field_of(fields@, key@) == field_of(fields@.skip(i as int), key@),
                        self.field(key@) == field_of(fields@, key@),
                    decreases fields@.len() - i,
                {
                    if same(fields[i].0.as_str(), key) {
                        return Some(&fields[i].1);
                    }
                    assert(fields@.skip(i as int).drop_first() =~= fields@.skip(i + 1));
                    i = i + 1;
                }
                None
            },
            _ => None,
        }
    }

    /// The string of a string value.
    pub fn as_text(&self) -> (r: Option<&str>)
        ensures
            match r {
                Some(s) => self.text() == Some(s@),
                None => self.text() is None,
            },
    {
        match self {
            Json::Text(s) => Some(s.as_str()),
            _ => None,
        }
    }

    /// The items of an array.
    pub fn as_items(&self) -> (r: Option<&Vec<Json>>)
        ensures
            match r {
                Some(v) => self.items() == Some(v@),
                None => self.items() is None,
            },
    {
        match self {
            Json::Array(v) => Some(v),
            _ => None,
        }
    }

    /// A boolean value.
    pub fn as_boolean(&self) -> (r: Option<bool>)
        ensures
            r == self.boolean(),
    {
        match self {
            Json::Bool(b) => Some(*b),
            _ => None,
        }
    }

    /// A number in double precision.
    pub fn as_number(&self) -> (r: Option<Double>)
        ensures
            r == self.number(),
    {
        match self {
            Json::Number(n) => Some(n.value),
            _ => None,
        }
    }

    /// A number as a non-negative integer.
    pub fn as_unsigned(&self) -> (r: Option<u64>)
        ensures
            r == self.unsigned(),
    {
        match self {
            Json::Number(n) => n.unsigned,
            _ => None,
        }
    }
}

proof fn first_fields_are_found(fields: Seq<(String, Json)>, key: Seq<char>)
    ensures
        match field_of(fields, key) {
            Some(v) => exists|i: int|
                0 <= i < fields.len() && (#[trigger] fields[i]).0@ == key && fields[i].1 == v
                    && forall|j: int| 0 <= j < i ==> (#[trigger] fields[j]).0@ != key,
            None => forall|j: int| 0 <= j < fields.len() ==> (#[trigger] fields[j]).0@ != key,
        },
    decreases fields.len(),
{
    if fields.len() > 0 && fields[0].0@ != key {
        let rest = fields.drop_first();
        first_fields_are_found(rest, key);
        match field_of(rest, key) {
            Some(v) => {
                let i = choose|i: int|
                    0 <= i < rest.len() && (#[trigger] rest[i]).0@ == key && rest[i].1 == v
                        && forall|j: int| 0 <= j < i ==> (#[trigger] rest[j]).0@ != key;
                assert(fields[i + 1] == rest[i]);
                assert forall|j: int| 0 <= j < i + 1 implies (#[trigger] fields[j]).0@ != key by {
                    if j > 0 {
                        assert(rest[j - 1] == fields[j]);
                    }
                }
            },
            None => {
                assert forall|j: int| 0 <= j < fields.len() implies (#[trigger] fields[j]).0@
                    != key by {
                    if j > 0 {
                        assert(rest[j - 1] == fields[j]);
                    }
                }
            },
        }
    } else if fields.len() > 0 {
        assert(fields[0].0@ == key);
    }
}

/// A field is the first of an object that has the key; what is no object has no field.
pub proof fn fields_are_found_by_key(value: Json, key: Seq<char>)
    ensures
        value matches Json::Object(fields) ==> match value.field(key) {
            Some(v) => exists|i: int|
                0 <= i < fields@.len() && (#[trigger] fields@[i]).0@ == key && fields@[i].1 == v
                    && forall|j: int| 0 <= j < i ==> (#[trigger] fields@[j]).0@ != key,
            None => forall|j: int| 0 <= j < fields@.len() ==> (#[trigger] fields@[j]).0@ != key,
        },
        !(value is Object) ==> value.field(key) is None,
        value.text_field(key) is Some <==> value.field(key) is Some && value.field(key)->0 is Text,
        value.text_field(key) matches Some(t) ==> t == value.field(key)->0->Text_0@,
        value.unsigned_field(key) matches Some(n) ==> value.field(key)->0 is Number && Some(n)
            == value.field(key)->0->Number_0.unsigned,
{
    match value {
        Json::Object(fields) => first_fields_are_found(fields@, key),
        _ => {},
    }
}

/// A value is read as what it is, and as nothing else.
pub proof fn values_have_one_kind(value: Json)
    ensures
        value.text() is Some <==> value is Text,
        value.items() is Some <==> value is Array,
        value.boolean() is Some <==> value is Bool,
        value.number() is Some <==> value is Number,
        value.unsigned() is Some ==> value is Number,
        value matches Json::Text(s) ==> value.text() == Some(s@),
        value matches Json::Array(v) ==> value.items() == Some(v@),
        value matches Json::Bool(b) ==> value.boolean() == Some(b),
        value matches Json::Number(n) ==> value.number() == Some(n.value) && value.unsigned()
            == n.unsigned,
{
}

}
