//! JSON objects.
//!
//! An object is a `serde_json::Map`, and its text is what `serde_json` writes for it. This module
//! says what such an object holds and declares the operations that the crate needs of it.

use vstd::prelude::*;

verus! {

/// `serde_json::Map`, opaque here.
#[verifier::external_type_specification]
#[verifier::external_body]
#[verifier::reject_recursive_types(K)]
#[verifier::reject_recursive_types(V)]
pub struct ExJsonMap<K, V>(serde_json::Map<K, V>);

/// `serde_json::Value`, opaque here.
#[verifier::external_type_specification]
#[verifier::external_body]
pub struct ExJsonValue(serde_json::Value);

/// A JSON object.
pub type JsonObject = serde_json::Map<String, serde_json::Value>;

/// A member of a JSON object, as the contracts speak of it.
pub enum Member {
    Text(Seq<char>),
    Number(u64),
    Object(Map<Seq<char>, Member>),
}

/// What a JSON object holds: its members by key.
pub type Members = Map<Seq<char>, Member>;

/// A value to put into a JSON object.
pub enum JsonField<'a> {
    Text(&'a str),
    Number(u64),
    Object(JsonObject),
}

impl View for JsonField<'_> {
    type V = Member;

    open spec fn view(&self) -> Member {
        match self {
            JsonField::Text(text) => Member::Text(text@),
            JsonField::Number(number) => Member::Number(*number),
            JsonField::Object(object) => Member::Object(json_members(*object)),
        }
    }
}

/// What a JSON object holds.
pub uninterp spec fn json_members(object: JsonObject) -> Members;

/// The compact text that `serde_json` writes for an object with the given members, its keys in
/// ascending order.
pub uninterp spec fn json_text(members: Members) -> Seq<char>;

/// Whether a text is free of the delete character, the one control character that JSON text
/// carries as it is.
pub open spec fn has_no_delete(text: Seq<char>) -> bool {
    forall|i: int| 0 <= i < text.len() ==> #[trigger] text[i] != '\x7f'
}

/// Whether an object holds only numbers and texts, with the delete character in no text and no
/// key.
pub open spec fn is_flat_without_delete(members: Members) -> bool {
    forall|key: Seq<char>| #[trigger]
        members.contains_key(key) ==> has_no_delete(key) && match members[key] {
            Member::Text(text) => has_no_delete(text),
            Member::Number(_) => true,
            Member::Object(_) => false,
        }
}

/// Whether a text is ASCII and free of the delete character. Other control characters may stand
/// in it.
pub open spec fn is_ascii_text(text: Seq<char>) -> bool {
    forall|i: int| 0 <= i < text.len() ==> #[trigger] text[i] < '\x7f'
}

/// Whether an object holds only numbers and texts, with nothing but ASCII in its texts and keys,
/// and the delete character in none.
pub open spec fn is_flat_ascii(members: Members) -> bool {
    forall|key: Seq<char>| #[trigger]
        members.contains_key(key) ==> is_ascii_text(key) && match members[key] {
            Member::Text(text) => is_ascii_text(text),
            Member::Number(_) => true,
            Member::Object(_) => false,
        }
}

/// `serde_json::Map::new` makes an empty object.
#[verifier::external_body]
pub(crate) fn json_object() -> (made: JsonObject)
    ensures
        json_members(made) == Members::empty(),
{
    serde_json::Map::new()
}

/// `serde_json::Map::insert` makes a value the member of a key, in place of an earlier one.
#[verifier::external_body]
pub(crate) fn json_insert(object: &mut JsonObject, key: &str, field: JsonField<'_>)
    ensures
        json_members(*final(object)) == json_members(*old(object)).insert(key@, field@),
{
    let value = match field {
        JsonField::Text(text) => serde_json::Value::from(text),
        JsonField::Number(number) => serde_json::Value::from(number),
        JsonField::Object(inner) => serde_json::Value::Object(inner),
    };
    object.insert(key.to_owned(), value);
}

/// `Display` of `serde_json::Value` writes an object as compact JSON. The text opens with a
/// brace. Control characters are escaped in it, all but the delete character, which occurs only
/// if a key or a text of the object holds it. No other character is escaped into or replaced by
/// one outside ASCII, so that ASCII members give ASCII text.
#[verifier::external_body]
pub(crate) fn json_to_text(object: JsonObject) -> (text: String)
    ensures
        text@ == json_text(json_members(object)),
        text@.len() > 0 && text@[0] == '{',
        is_flat_without_delete(json_members(object)) ==> forall|i: int|
            0 <= i < text@.len() ==> ' ' <= #[trigger] text@[i] && text@[i] != '\x7f',
        is_flat_ascii(json_members(object)) ==> forall|i: int|
            0 <= i < text@.len() ==> ' ' <= #[trigger] text@[i] < '\x7f',
{
    serde_json::Value::Object(object).to_string()
}

} // verus!
