//! JSON values, as far as the plugin reads and writes them.
//!
//! Values are held as [`serde_json::Value`]. What such a value holds is given by [`json_of`] in
//! terms of the mathematical type [`Json`], and every operation on values is specified over it.

use serde_json::Value;
use vstd::prelude::*;

verus! {

/// A JSON document.
pub enum Json {
    Null,
    Bool(bool),
    /// A number written as a non-negative integer that fits 64 bits.
    Unsigned(u64),
    /// A number written as a negative integer that fits 64 bits.
    Negative(i64),
    /// Any other number, by the bits of its double precision representation.
    Float(u64),
    Text(Seq<char>),
    Array(Seq<Json>),
    Object(Map<Seq<char>, Json>),
}

impl Json {
    /// The member `key` of an object. Other values have no members.
    pub open spec fn member(self, key: Seq<char>) -> Option<Json> {
        match self {
            Json::Object(members) => if members.contains_key(key) {
                Some(members[key])
            } else {
                None
            },
            _ => None,
        }
    }

    /// The characters of a text.
    pub open spec fn text(self) -> Option<Seq<char>> {
        match self {
            Json::Text(chars) => Some(chars),
            _ => None,
        }
    }

    /// The value of a non-negative integer.
    pub open spec fn unsigned(self) -> Option<u64> {
        match self {
            Json::Unsigned(number) => Some(number),
            _ => None,
        }
    }

    /// The value of a boolean.
    pub open spec fn flag(self) -> Option<bool> {
        match self {
            Json::Bool(flag) => Some(flag),
            _ => None,
        }
    }

    /// Whether a document has no numbers but integers, and at most `levels` levels of nesting.
    pub open spec fn is_plain(self, levels: nat) -> bool
        decreases levels,
    {
        match self {
            Json::Float(_) => false,
            Json::Array(items) => levels > 0 && forall|i: int|
                0 <= i < items.len() ==> (#[trigger] items[i]).is_plain((levels - 1) as nat),
            Json::Object(members) => levels > 0 && forall|key: Seq<char>| #[trigger]
                members.contains_key(key) ==> members[key].is_plain((levels - 1) as nat),
            _ => true,
        }
    }
}

/// The number of levels of nesting up to which [`serde_json::from_str`] reads documents.
pub const MAX_LEVELS: u8 = 127;

/// A [`serde_json::Value`].
#[verifier::external_type_specification]
#[verifier::external_body]
pub struct ExValue(serde_json::Value);

/// The reason why [`serde_json`] could not read a text.
#[verifier::external_type_specification]
#[verifier::external_body]
pub struct ExJsonError(serde_json::Error);

/// What a [`serde_json::Value`] holds.
pub uninterp spec fn json_of(value: serde_json::Value) -> Json;

/// The document that [`serde_json::from_str`] reads from a text, if the text is one document.
pub uninterp spec fn parsed(text: Seq<char>) -> Option<Json>;

/// The compact text that [`serde_json::Value`] displays for a document.
pub uninterp spec fn printed(json: Json) -> Seq<char>;

/// Calls [`serde_json::from_str`], which reads a value from a text or refuses it. The contract says
/// that the text alone decides which, and what the value holds.
#[verifier::external_body]
pub(crate) fn parse(text: &str) -> (result: Result<Value, serde_json::Error>)
    ensures
        match result {
            Ok(value) => parsed(text@) == Some(json_of(value)),
            Err(_) => parsed(text@) is None,
        },
{
    serde_json::from_str::<Value>(text)
}

/// Calls [`serde_json::Value::get`] with a string index, which finds the member of an object with
/// that name. Objects without it and other values have nothing to find.
#[verifier::external_body]
pub(crate) fn member<'a>(value: &'a Value, key: &str) -> (result: Option<&'a Value>)
    ensures
        match result {
            Some(found) => json_of(*value).member(key@) == Some(json_of(*found)),
            None => json_of(*value).member(key@) is None,
        },
{
    value.get(key)
}

/// [`serde_json::Value::as_str`] gives the characters of a text, and nothing for other values.
pub assume_specification[ serde_json::Value::as_str ](value: &serde_json::Value) -> (result: Option<
    &str,
>)
    ensures
        match result {
            Some(text) => json_of(*value).text() == Some(text@),
            None => json_of(*value).text() is None,
        },
;

/// [`serde_json::Value::as_u64`] gives the value of a number that is held as a non-negative
/// integer, and nothing for other values.
pub assume_specification[ serde_json::Value::as_u64 ](value: &serde_json::Value) -> (result: Option<
    u64,
>)
    ensures
        result == json_of(*value).unsigned(),
;

/// [`serde_json::Value::as_bool`] gives the value of a boolean, and nothing for other values.
pub assume_specification[ serde_json::Value::as_bool ](
    value: &serde_json::Value,
) -> (result: Option<bool>)
    ensures
        result == json_of(*value).flag(),
;

/// Calls `to_string` on a [`serde_json::Value`], which displays it in compact form, members in the
/// order of their names. The contract says that what the value holds decides the text, and that a
/// value without other numbers than integers is read back from it by [`serde_json::from_str`] as it
/// was, unless it is nested too deeply for that to read. It leaves open what is read back of other
/// values: a number that is not an integer may come back changed.
#[verifier::external_body]
pub(crate) fn print(value: &Value) -> (result: String)
    ensures
        result@ == printed(json_of(*value)),
        json_of(*value).is_plain(MAX_LEVELS as nat) ==> parsed(result@) == Some(json_of(*value)),
{
    value.to_string()
}

/// Calls [`serde_json::Value::from`] on a string slice, which makes a text of it.
#[verifier::external_body]
pub(crate) fn text_value(text: &str) -> (result: Value)
    ensures
        json_of(result) == Json::Text(text@),
{
    Value::from(text)
}

/// Calls [`serde_json::Value::from`] on an integer, which makes a number of it.
#[verifier::external_body]
pub(crate) fn number_value(number: usize) -> (result: Value)
    ensures
        json_of(result) == Json::Unsigned(number as u64),
{
    Value::from(number)
}

/// Calls [`serde_json::Value::from`] on the unit value, which makes a null of it.
#[verifier::external_body]
pub(crate) fn null_value() -> (result: Value)
    ensures
        json_of(result) == Json::Null,
{
    Value::from(())
}

/// The members that a list of keys and values makes up.
pub open spec fn members_of(entries: Seq<(String, Value)>) -> Map<Seq<char>, Json>
    decreases entries.len(),
{
    if entries.len() == 0 {
        Map::empty()
    } else {
        members_of(entries.drop_last()).insert(entries.last().0@, json_of(entries.last().1))
    }
}

/// Whether no key occurs twice in a list of keys and values.
pub open spec fn keys_differ(entries: Seq<(String, Value)>) -> bool {
    forall|i: int, j: int|
        0 <= i < j < entries.len() ==> (#[trigger] entries[i]).0@ != (#[trigger] entries[j]).0@
}

/// Each key in a list is the name of a member, and each member has its key in the list.
pub proof fn lemma_keys_are_members(entries: Seq<(String, Value)>, key: Seq<char>)
    ensures
        members_of(entries).contains_key(key) <==> exists|i: int|
            0 <= i < entries.len() && (#[trigger] entries[i]).0@ == key,
    decreases entries.len(),
{
    if entries.len() > 0 {
        let before = entries.drop_last();
        lemma_keys_are_members(before, key);
        if members_of(before).contains_key(key) {
            let i = choose|i: int| 0 <= i < before.len() && (#[trigger] before[i]).0@ == key;
            assert(entries[i].0@ == key);
        }
        if entries.last().0@ == key {
            assert(entries[entries.len() - 1].0@ == key);
        }
        if exists|i: int| 0 <= i < entries.len() && (#[trigger] entries[i]).0@ == key {
            let i = choose|i: int| 0 <= i < entries.len() && (#[trigger] entries[i]).0@ == key;
            if i < before.len() {
                assert(before[i].0@ == key);
            }
        }
    }
}

/// Calls [`serde_json::Value::from_iter`] on pairs of a key and a value, which makes an object
/// of them, as [`members_of`] says. No key may occur twice: which of the values would count is
/// left open.
#[verifier::external_body]
pub(crate) fn object_value(entries: Vec<(String, Value)>) -> (result: Value)
    requires
        keys_differ(entries@),
    ensures
        json_of(result) == Json::Object(members_of(entries@)),
{
    Value::from_iter(entries)
}

} // verus!
