//! Structured values: the generic JSON data model that parsing produces.

use vstd::prelude::*;

verus! {

/// The mathematical model of a structured value. An object is a map from
/// keys to values: the order of its keys carries no meaning.
pub enum Json {
    Null,
    Bool(bool),
    Integer(int),
    /// A number, given by the decimal literal that spells it.
    ///
    /// The literal is kept as it is written. Which 64-bit float is nearest to
    /// it is not decided here; a literal beyond the range of such floats
    /// spells no JSON number, and the conversion to a `serde_json::Value`
    /// that callers make gives null for it.
    Number(Seq<char>),
    String(Seq<char>),
    Array(Seq<Json>),
    Object(Map<Seq<char>, Json>),
}

/// A structured value.
///
/// An object is held as a list of entries. Where a key occurs more than
/// once, the last entry with that key is the one that counts.
#[derive(Debug, PartialEq)]
pub enum Value {
    Null,
    Bool(bool),
    Integer(i64),
    /// A number, held as the decimal literal that spells it.
    ///
    /// The literal is kept as it is written. Which 64-bit float is nearest to
    /// it is not decided here; a literal beyond the range of such floats
    /// spells no JSON number, and the conversion to a `serde_json::Value`
    /// that callers make gives null for it.
    Number(String),
    String(String),
    Array(Vec<Value>),
    Object(Vec<(String, Value)>),
}

/// The models of a list of values.
pub open spec fn items_view(items: Seq<Value>) -> Seq<Json>
    decreases items,
{
    if items.len() == 0 {
        seq![]
    } else {
        items_view(items.drop_last()).push(items.last()@)
    }
}

/// The map that a list of entries stands for: a later entry replaces an
/// earlier one with the same key.
pub open spec fn entries_view(entries: Seq<(String, Value)>) -> Map<Seq<char>, Json>
    decreases entries,
{
    if entries.len() == 0 {
        Map::empty()
    } else {
        entries_view(entries.drop_last()).insert(entries.last().0@, entries.last().1@)
    }
}

impl View for Value {
    type V = Json;

    open spec fn view(&self) -> Json
        decreases self,
    {
        match self {
            Value::Null => Json::Null,
            Value::Bool(b) => Json::Bool(*b),
            Value::Integer(n) => Json::Integer(*n as int),
            Value::Number(text) => Json::Number(text@),
            Value::String(text) => Json::String(text@),
            Value::Array(items) => Json::Array(items_view(items@)),
            Value::Object(entries) => Json::Object(entries_view(entries@)),
        }
    }
}

/// Whether every number in `v` is spelled by a decimal literal.
pub open spec fn well_formed(v: Json) -> bool
    decreases v,
{
    match v {
        Json::Number(literal) => crate::transform::is_decimal_literal(literal),
        Json::Array(items) => forall|i: int| 0 <= i < items.len() ==> well_formed(#[trigger] items[i]),
        Json::Object(fields) => fields.dom().finite() && forall|key: Seq<char>|
            fields.dom().contains(key) ==> well_formed(#[trigger] fields[key]),
        _ => true,
    }
}

/// What an object holds under `key`; nothing where the value is no object
/// or has no such key.
pub open spec fn member(v: Json, key: Seq<char>) -> Option<Json> {
    match v {
        Json::Object(fields) => if fields.dom().contains(key) {
            Some(fields[key])
        } else {
            None
        },
        _ => None,
    }
}

/// The model of an optional reference to a value.
pub open spec fn model_of(v: Option<&Value>) -> Option<Json> {
    match v {
        Some(v) => Some(v@),
        None => None,
    }
}

impl Value {
    /// What an object holds under `key`.
    pub fn get(&self, key: &str) -> (found: Option<&Value>)
        ensures
            model_of(found) == member(self@, key@),
    {
        match self {
            Value::Object(entries) => {
                let wanted = key.to_owned();
                let mut i: usize = entries.len();
                assert(entries@.take(i as int) == entries@);
                while i > 0
                    invariant
                        i <= entries.len(),
                        wanted@ == key@,
                        self@ == Json::Object(entries_view(entries@)),
                        member(self@, key@) == member(
                            Json::Object(entries_view(entries@.take(i as int))),
                            key@,
                        ),
                    decreases i,
                {
                    let ghost upto = entries@.take(i as int);
                    assert(upto.drop_last() == entries@.take(i - 1));
                    assert(upto.last() == entries@[i - 1]);
                    assert(entries_view(upto) == entries_view(upto.drop_last()).insert(
                        upto.last().0@,
                        upto.last().1@,
                    ));
                    if entries[i - 1].0 == wanted {
                        return Some(&entries[i - 1].1);
                    }
                    i -= 1;
                }
                None
            },
            _ => None,
        }
    }

    /// The items of an array.
    pub fn as_array(&self) -> (items: Option<&Vec<Value>>)
        ensures
            match items {
                Some(list) => self@ == Json::Array(items_view(list@)),
                None => !(self@ is Array),
            },
    {
        match self {
            Value::Array(items) => Some(items),
            _ => None,
        }
    }

    /// The text of a string.
    pub fn as_str(&self) -> (text: Option<&str>)
        ensures
            match text {
                Some(t) => self@ == Json::String(t@),
                None => !(self@ is String),
            },
    {
        match self {
            Value::String(text) => Some(text.as_str()),
            _ => None,
        }
    }

    /// Whether the value is null.
    pub fn is_null(&self) -> (b: bool)
        ensures
            b == (self@ is Null),
    {
        match self {
            Value::Null => true,
            _ => false,
        }
    }
}

} // verus!
