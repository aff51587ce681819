//! JSON documents as the parser reads them.
//!
//! Text is turned into a document by `serde_json`; what the message schema
//! needs of a document is then read off the tree in verified code.

use vstd::prelude::*;

verus! {

/// A JSON value.
#[derive(Debug)]
pub enum Json {
    Null,
    Bool(bool),
    /// A number; its value where it is a whole number from 0 to `u64::MAX`.
    Number(Option<u64>),
    Text(String),
    Array(Vec<Json>),
    /// An object: its members, no two of the same name.
    Object(Vec<Member>),
}

/// A member of a JSON object.
#[derive(Debug)]
pub struct Member {
    pub name: String,
    pub value: Json,
}

#[verifier::external_type_specification]
#[verifier::external_body]
pub struct ExValue(serde_json::Value);

/// The value that `serde_json` reads from a text, if it reads one.
pub uninterp spec fn value_of_text(text: Seq<char>) -> Option<serde_json::Value>;

/// What a `serde_json::Value` holds.
pub uninterp spec fn json_of_value(value: serde_json::Value) -> Json;

/// The text that `serde_json` writes for the member `name` of a value:
/// none where the value is no object with such a member.
pub uninterp spec fn text_of_member(value: serde_json::Value, name: Seq<char>) -> Option<Seq<char>>;

/// The document that a text holds, if it holds one.
pub open spec fn json_of_text(text: Seq<char>) -> Option<Json> {
    match value_of_text(text) {
        Some(value) => Some(json_of_value(value)),
        None => None,
    }
}

/// The text of the member `name` of the document that a text holds, as
/// `serde_json` writes it: none where the text holds no document, or one
/// that is no object with such a member.
pub open spec fn member_text_of(text: Seq<char>, name: Seq<char>) -> Option<Seq<char>> {
    match value_of_text(text) {
        Some(value) => text_of_member(value, name),
        None => None,
    }
}

/// The value of the first member named `name`.
pub open spec fn member_of(members: Seq<Member>, name: Seq<char>) -> Option<Json>
    decreases members.len(),
{
    if members.len() == 0 {
        None
    } else if members[0].name@ == name {
        Some(members[0].value)
    } else {
        member_of(members.drop_first(), name)
    }
}

impl Json {
    /// The value of the member `name` of an object.
    pub open spec fn member(self, name: Seq<char>) -> Option<Json> {
        match self {
            Json::Object(members) => member_of(members@, name),
            _ => None,
        }
    }

    /// The characters of a text.
    pub open spec fn text(self) -> Option<Seq<char>> {
        match self {
            Json::Text(text) => Some(text@),
            _ => None,
        }
    }

    /// The value of a whole number from 0 to `u64::MAX`.
    pub open spec fn number(self) -> Option<u64> {
        match self {
            Json::Number(value) => value,
            _ => None,
        }
    }

    /// The value of a boolean.
    pub open spec fn boolean(self) -> Option<bool> {
        match self {
            Json::Bool(value) => Some(value),
            _ => None,
        }
    }

    /// The items of an array.
    pub open spec fn items(self) -> Option<Seq<Json>> {
        match self {
            Json::Array(items) => Some(items@),
            _ => None,
        }
    }

    /// Reads a document from text.
    pub fn parse(text: &str) -> (r: Option<Json>)
        ensures
            r == json_of_text(text@),
    {
        match read_value(text) {
            Some(value) => Some(json_from(&value)),
            None => None,
        }
    }

    /// Reads a document from text and writes its member `name` out again,
    /// in compact form.
    pub fn member_text(text: &str, name: &str) -> (r: Option<String>)
        ensures
            match member_text_of(text@, name@) {
                Some(written) => r matches Some(s) && s@ == written,
                None => r is None,
            },
    {
        match read_value(text) {
            Some(value) => write_member(&value, name),
            None => None,
        }
    }

    /// The value of the member `name` of an object.
    pub fn get(&self, name: &str) -> (r: Option<&Json>)
        ensures
            match self.member(name@) {
                Some(value) => r == Some(&value),
                None => r is None,
            },
    {
        match self {
            Json::Object(members) => {
                let wanted = name.to_owned();
                let mut i: usize = 0;
                assert(members@.skip(0) =~= members@);
                while i < members.len()
                    invariant
                        i <= members.len(),
                        wanted@ == name@,
                        self.member(name@) == member_of(members@.skip(i as int), name@),
                    decreases members.len() - i,
                {
                    proof {
                        assert(members@.skip(i as int)[0] == members@[i as int]);
                        assert(members@.skip(i as int).drop_first() == members@.skip(i + 1));
                    }
                    if members[i].name == wanted {
                        return Some(&members[i].value);
                    }
                    i += 1;
                }
                None
            },
            _ => None,
        }
    }

    /// The characters of a text.
    pub fn as_str(&self) -> (r: Option<&str>)
        ensures
            match self.text() {
                Some(text) => r matches Some(s) && s@ == text,
                None => r is None,
            },
    {
        match self {
            Json::Text(text) => Some(text.as_str()),
            _ => None,
        }
    }

    /// The value of a whole number from 0 to `u64::MAX`.
    pub fn as_u64(&self) -> (r: Option<u64>)
        ensures
            r == self.number(),
    {
        match self {
            Json::Number(value) => *value,
            _ => None,
        }
    }

    /// The value of a boolean.
    pub fn as_bool(&self) -> (r: Option<bool>)
        ensures
            r == self.boolean(),
    {
        match self {
            Json::Bool(value) => Some(*value),
            _ => None,
        }
    }

    /// The items of an array.
    pub fn as_array(&self) -> (r: Option<&Vec<Json>>)
        ensures
            match self.items() {
                Some(items) => r matches Some(v) && v@ == items,
                None => r is None,
            },
    {
        match self {
            Json::Array(items) => Some(items),
            _ => None,
        }
    }
}

/// `serde_json::from_str` for a `serde_json::Value`. What it reads is a
/// function of the text, named [`value_of_text`]; text that is no JSON
/// document gives `None`.
#[verifier::external_body]
fn read_value(text: &str) -> (r: Option<serde_json::Value>)
    ensures
        r == value_of_text(text@),
{
    match serde_json::from_str::<serde_json::Value>(text) {
        Ok(value) => Some(value),
        Err(_) => None,
    }
}

/// `serde_json::Value::get` with a name, the member handed on as the text
/// that its `to_string` writes: compact JSON. What comes out is a function
/// of value and name, named [`text_of_member`]; a value that is no object,
/// and an object without such a member, give `None`.
#[verifier::external_body]
fn write_member(value: &serde_json::Value, name: &str) -> (r: Option<String>)
    ensures
        match text_of_member(*value, name@) {
            Some(written) => r matches Some(s) && s@ == written,
            None => r is None,
        },
{
    match value.get(name) {
        Some(member) => Some(member.to_string()),
        None => None,
    }
}

/// Hands a `serde_json::Value` on as a [`Json`], variant by variant; a
/// number keeps what `serde_json::Number::as_u64` gives for it. What comes
/// out is named [`json_of_value`].
#[verifier::external_body]
fn json_from(value: &serde_json::Value) -> (r: Json)
    ensures
        r == json_of_value(*value),
{
    match value {
        serde_json::Value::Null => Json::Null,
        serde_json::Value::Bool(flag) => Json::Bool(*flag),
        serde_json::Value::Number(number) => Json::Number(number.as_u64()),
        serde_json::Value::String(text) => Json::Text(text.clone()),
        serde_json::Value::Array(items) => Json::Array(items.iter().map(json_from).collect()),
        serde_json::Value::Object(members) => Json::Object(
            members.iter().map(
                |(name, value)| Member { name: name.clone(), value: json_from(value) },
            ).collect(),
        ),
    }
}

} // verus!
