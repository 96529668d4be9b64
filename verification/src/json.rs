//! JSON values, as `serde_json` holds them.

use crate::type_parser;
use vstd::prelude::*;

verus! {

/// A number in a JSON value.
pub enum NumberModel {
    /// A whole number.
    Integer(int),
    /// A number with a fraction or an exponent, by the bits of the floating-point number that
    /// stands for it.
    Real(u64),
}

/// What a JSON value is.
pub enum JsonModel {
    Null,
    Bool(bool),
    Number(NumberModel),
    Text(Seq<char>),
    Array(Seq<JsonModel>),
    Object(Map<Seq<char>, JsonModel>),
}

/// The member of an object under a name.
pub open spec fn member(value: JsonModel, name: Seq<char>) -> Option<JsonModel> {
    match value {
        JsonModel::Object(members) => if members.dom().finite() && members.contains_key(name) {
            Some(members[name])
        } else {
            None
        },
        _ => None,
    }
}

/// The text of a value that is a string.
pub open spec fn as_text(value: JsonModel) -> Option<Seq<char>> {
    match value {
        JsonModel::Text(text) => Some(text),
        _ => None,
    }
}

/// The elements of a value that is an array.
pub open spec fn as_elements(value: JsonModel) -> Option<Seq<JsonModel>> {
    match value {
        JsonModel::Array(elements) => Some(elements),
        _ => None,
    }
}

/// The integer that a value is.
pub open spec fn as_integer(value: JsonModel) -> Option<int> {
    match value {
        JsonModel::Number(NumberModel::Integer(number)) => Some(number),
        _ => None,
    }
}

/// The number that a text of decimal digits stands for.
pub open spec fn decimal(digits: Seq<char>) -> int
    decreases digits.len(),
{
    if digits.len() == 0 {
        0
    } else {
        decimal(digits.drop_last()) * 10 + (digits.last() as int - '0' as int)
    }
}

/// A text of decimal digits without a leading zero, for a number that an index can be.
pub open spec fn is_index(token: Seq<char>) -> bool {
    &&& token.len() > 0
    &&& forall|i: int| 0 <= i < token.len() ==> '0' <= #[trigger] token[i] <= '9'
    &&& token[0] == '0' ==> token.len() == 1
    &&& decimal(token) <= usize::MAX
}

/// What a token of a pointer picks out of a value: a member of an object, or an element of an
/// array.
pub open spec fn picked(value: JsonModel, token: Seq<char>) -> Option<JsonModel> {
    match value {
        JsonModel::Object(_) => member(value, token),
        JsonModel::Array(elements) => if is_index(token) && decimal(token) < elements.len() {
            Some(elements[decimal(token)])
        } else {
            None
        },
        _ => None,
    }
}

/// What a JSON pointer points at in a value: its tokens, each behind a `/`, are followed one after
/// the other.
pub open spec fn pointed_at(value: JsonModel, pointer: Seq<char>) -> Option<JsonModel>
    decreases pointer.len(),
{
    if pointer.len() == 0 {
        Some(value)
    } else if pointer[0] != '/' {
        None
    } else {
        let end = match type_parser::first_from(pointer, '/', 1) {
            Some(at) => at,
            None => pointer.len() as int,
        };
        proof {
            type_parser::first_from_is_first(pointer, '/', 1);
        }
        match picked(value, pointer.subrange(1, end)) {
            Some(next) => pointed_at(next, pointer.skip(end)),
            None => None,
        }
    }
}

#[verifier::external_type_specification]
#[verifier::external_body]
pub struct ExValue(serde_json::Value);

/// What a `serde_json::Value` holds.
pub uninterp spec fn json_of(value: serde_json::Value) -> JsonModel;

/// What each of a sequence of values holds.
pub open spec fn jsons_of(values: Seq<serde_json::Value>) -> Seq<JsonModel> {
    values.map_values(|value: serde_json::Value| json_of(value))
}

/// What an optional value holds.
pub open spec fn found(value: Option<&serde_json::Value>) -> Option<JsonModel> {
    match value {
        Some(value) => Some(json_of(*value)),
        None => None,
    }
}

/// The outcome of reading JSON text: the value, or the message that tells what is wrong.
pub uninterp spec fn json_parsed(source: Seq<char>) -> Result<JsonModel, Seq<char>>;

/// `serde_json::from_str` for values, with the message of its error. The contract claims no more
/// than that the outcome depends on the text alone.
#[verifier::external_body]
pub(crate) fn parse_json(source: &str) -> (value: Result<serde_json::Value, String>)
    ensures
        match (value, json_parsed(source@)) {
            (Ok(value), Ok(model)) => json_of(value) == model,
            (Err(message), Err(m)) => message@ == m,
            _ => false,
        },
{
    serde_json::from_str(source).map_err(|error| error.to_string())
}

/// The outcome of writing a value as JSON text, if it can be written.
pub uninterp spec fn json_written(value: JsonModel) -> Option<Seq<char>>;

/// `serde_json::to_string` for values. The contract claims no more than that the outcome depends on
/// what the value holds.
#[verifier::external_body]
pub(crate) fn write_json(value: &serde_json::Value) -> (written: Option<String>)
    ensures
        match (written, json_written(json_of(*value))) {
            (Some(written), Some(w)) => written@ == w,
            (None, None) => true,
            _ => false,
        },
{
    serde_json::to_string(value).ok()
}

/// `serde_json::Value::get` with a name: the member of an object, and nothing for other values.
#[verifier::external_body]
pub(crate) fn get<'a>(value: &'a serde_json::Value, name: &str) -> (target: Option<
    &'a serde_json::Value,
>)
    ensures
        found(target) == member(json_of(*value), name@),
{
    value.get(name)
}

/// `serde_json::Value::pointer`. Pointers with `~` in them, where it stands for an escape, are left
/// out.
pub assume_specification<'a>[ serde_json::Value::pointer ](
    value: &'a serde_json::Value,
    pointer: &str,
) -> (target: Option<&'a serde_json::Value>)
    requires
        !pointer@.contains('~'),
    ensures
        found(target) == pointed_at(json_of(*value), pointer@),
;

/// `serde_json::Value::as_str`: the text of a string, and nothing for other values.
pub assume_specification[ serde_json::Value::as_str ](value: &serde_json::Value) -> (string: Option<
    &str,
>)
    ensures
        match (string, as_text(json_of(*value))) {
            (Some(string), Some(s)) => string@ == s,
            (None, None) => true,
            _ => false,
        },
;

/// `serde_json::Value::as_bool`: the truth value of a boolean, and nothing for other values.
pub assume_specification[ serde_json::Value::as_bool ](value: &serde_json::Value) -> (truth: Option<
    bool,
>)
    ensures
        truth == match json_of(*value) {
            JsonModel::Bool(b) => Some(b),
            _ => None,
        },
;

/// `serde_json::Value::as_i64`: the number of an integer of that type, and nothing for other values.
pub assume_specification[ serde_json::Value::as_i64 ](value: &serde_json::Value) -> (number: Option<
    i64,
>)
    ensures
        number == match as_integer(json_of(*value)) {
            Some(n) => if i64::MIN <= n <= i64::MAX {
                Some(n as i64)
            } else {
                None
            },
            None => None,
        },
;

/// `serde_json::Value::as_u64`: the number of an integer of that type, and nothing for other values.
pub assume_specification[ serde_json::Value::as_u64 ](value: &serde_json::Value) -> (number: Option<
    u64,
>)
    ensures
        number == match as_integer(json_of(*value)) {
            Some(n) => if 0 <= n <= u64::MAX {
                Some(n as u64)
            } else {
                None
            },
            None => None,
        },
;

/// `serde_json::Value::as_array`: the elements of an array, and nothing for other values.
pub assume_specification[ serde_json::Value::as_array ](value: &serde_json::Value) -> (elements:
    Option<&Vec<serde_json::Value>>)
    ensures
        match (elements, as_elements(json_of(*value))) {
            (Some(elements), Some(e)) => jsons_of(elements@) == e,
            (None, None) => true,
            _ => false,
        },
;

/// The `clone` of `serde_json::Value`, which holds what the value holds.
pub assume_specification[ <serde_json::Value as Clone>::clone ](value: &serde_json::Value) -> (copy:
    serde_json::Value)
    ensures
        json_of(copy) == json_of(*value),
;

/// The variant `Null` of `serde_json::Value`.
#[verifier::external_body]
pub(crate) fn null() -> (value: serde_json::Value)
    ensures
        json_of(value) == JsonModel::Null,
{
    serde_json::Value::Null
}

/// The conversion of `serde_json::Value` from a string.
#[verifier::external_body]
pub(crate) fn string(content: &str) -> (value: serde_json::Value)
    ensures
        json_of(value) == JsonModel::Text(content@),
{
    serde_json::Value::from(content)
}

/// The conversion of `serde_json::Value` from an integer.
#[verifier::external_body]
pub(crate) fn integer(number: i64) -> (value: serde_json::Value)
    ensures
        json_of(value) == JsonModel::Number(NumberModel::Integer(number as int)),
{
    serde_json::Value::from(number)
}

/// The members that a list of pairs makes. The last of several pairs with one name counts.
pub open spec fn members(pairs: Seq<(String, serde_json::Value)>) -> Map<Seq<char>, JsonModel>
    decreases pairs.len(),
{
    if pairs.len() == 0 {
        Map::empty()
    } else {
        members(pairs.drop_last()).insert(pairs.last().0@, json_of(pairs.last().1))
    }
}

/// The `from_iter` of `serde_json::Value` for pairs of a name and a value, which makes an object.
#[verifier::external_body]
pub(crate) fn object(pairs: Vec<(String, serde_json::Value)>) -> (value: serde_json::Value)
    ensures
        json_of(value) == JsonModel::Object(members(pairs@)),
{
    serde_json::Value::from_iter(pairs)
}

} // verus!
