use vstd::prelude::*;
use crate::error::CoreError;

verus! {

/// A JSON document.
#[derive(Debug)]
pub enum Json {
    /// `null`.
    Null,
    /// `true` or `false`.
    Bool(bool),
    /// A number, as the text that it is written with.
    Number(String),
    /// A string.
    String(String),
    /// An array.
    Array(Vec<Json>),
    /// An object.
    Object(Object),
}

/// The members of a JSON object: names with their values, in an order.
///
/// The view is the members in that order, each name as its characters.
#[derive(Debug)]
pub struct Object {
    entries: Vec<(String, Json)>,
}

/// The members of an object as contracts see them.
pub open spec fn spec_members(entries: Seq<(String, Json)>) -> Seq<(Seq<char>, Json)> {
    entries.map_values(|entry: (String, Json)| (entry.0@, entry.1))
}

/// The value of the first member called `name`, if there is one.
pub open spec fn spec_lookup(members: Seq<(Seq<char>, Json)>, name: Seq<char>) -> Option<Json>
    decreases members.len(),
{
    if members.len() == 0 {
        None
    } else if members[0].0 == name {
        Some(members[0].1)
    } else {
        spec_lookup(members.drop_first(), name)
    }
}

impl View for Object {
    type V = Seq<(Seq<char>, Json)>;

    closed spec fn view(&self) -> Seq<(Seq<char>, Json)> {
        spec_members(self.entries@)
    }
}

/// `serde_json::Value`, a JSON document as `serde_json` holds it. Nothing
/// is known of what is inside it.
#[verifier::external_type_specification]
#[verifier::external_body]
pub struct ExJsonValue(serde_json::Value);

/// `serde_json::Error`, the reason why a text is not JSON. Nothing is known
/// of what is inside it.
#[verifier::external_type_specification]
#[verifier::external_body]
pub struct ExJsonError(serde_json::Error);

/// The document that `serde_json` reads from a text, if the text is JSON.
pub uninterp spec fn json_document(text: Seq<char>) -> Option<Json>;

/// Turns a `serde_json::Value` into a `Json`, variant for variant: a number
/// becomes the text that `serde_json` writes it with, and the members of an
/// object keep the order in which `serde_json` walks them.
#[verifier::external_body]
fn json_from_value(value: &serde_json::Value) -> Json {
    match value {
        serde_json::Value::Null => Json::Null,
        serde_json::Value::Bool(flag) => Json::Bool(*flag),
        serde_json::Value::Number(number) => Json::Number(number.to_string()),
        serde_json::Value::String(text) => Json::String(text.clone()),
        serde_json::Value::Array(items) => Json::Array(items.iter().map(json_from_value).collect()),
        serde_json::Value::Object(map) => Json::Object(
            Object { entries: map.iter().map(|(k, v)| (k.clone(), json_from_value(v))).collect() },
        ),
    }
}

/// `serde_json::from_str` for a `serde_json::Value`, turned into a `Json`:
/// what comes back is a function of the text: a document, or an error where
/// the text is not JSON.
#[verifier::external_body]
fn json_from_str(text: &str) -> (out: Result<Json, serde_json::Error>)
    ensures
        out matches Ok(document) ==> json_document(text@) == Some(document),
        out is Err ==> json_document(text@) is None,
{
    match serde_json::from_str::<serde_json::Value>(text) {
        Ok(value) => Ok(json_from_value(&value)),
        Err(error) => Err(error),
    }
}

impl Object {
    /// The object without members.
    pub fn new() -> (object: Self)
        ensures
            object@ == Seq::<(Seq<char>, Json)>::empty(),
    {
        let object = Object { entries: Vec::new() };
        assert(object@ =~= Seq::<(Seq<char>, Json)>::empty());
        object
    }

    /// The object with the members `entries`.
    pub fn from_entries(entries: Vec<(String, Json)>) -> (object: Self)
        ensures
            object@ == spec_members(entries@),
    {
        Object { entries }
    }

    /// The members, in their order.
    pub fn into_entries(self) -> (entries: Vec<(String, Json)>)
        ensures
            spec_members(entries@) == self@,
    {
        self.entries
    }

    /// The number of members.
    pub fn len(&self) -> (len: usize)
        ensures
            len == self@.len(),
    {
        self.entries.len()
    }

    /// The value of the first member called `name`, if there is one.
    pub fn get(&self, name: &str) -> (value: Option<&Json>)
        ensures
            match value {
                Some(found) => spec_lookup(self@, name@) == Some(*found),
                None => spec_lookup(self@, name@) is None,
            },
    {
        let wanted = String::from_str(name);
        let mut i: usize = 0;
        assert(self@.skip(0) =~= self@);
        while i < self.entries.len()
            invariant
                i <= self.entries@.len(),
                wanted@ == name@,
                self@ == spec_members(self.entries@),
                spec_lookup(self@, name@) == spec_lookup(self@.skip(i as int), name@),
            decreases self.entries@.len() - i,
        {
            let ghost rest = self@.skip(i as int);
            assert(rest[0] == self@[i as int]);
            assert(rest.drop_first() =~= self@.skip(i + 1));
            if self.entries[i].0 == wanted {
                return Some(&self.entries[i].1);
            }
            i = i + 1;
        }
        None
    }
}

impl Json {
    /// Reads a JSON document from a text.
    pub fn from_str(text: &str) -> (out: Result<Json, CoreError>)
        ensures
            match out {
                Ok(document) => json_document(text@) == Some(document),
                Err(e) => json_document(text@) is None && e == CoreError::DecodeJson,
            },
    {
        match json_from_str(text) {
            Ok(document) => Ok(document),
            Err(_) => Err(CoreError::DecodeJson),
        }
    }

    /// The text of a string; nothing for any other document.
    pub fn as_str(&self) -> (text: Option<&str>)
        ensures
            match *self {
                Json::String(inner) => text matches Some(t) && t@ == inner@,
                _ => text is None,
            },
    {
        match self {
            Json::String(inner) => Some(inner.as_str()),
            _ => None,
        }
    }

    /// The item at `index` of an array; nothing past its end, and nothing
    /// for any other document.
    pub fn at(&self, index: usize) -> (item: Option<&Json>)
        ensures
            match *self {
                Json::Array(items) => if index < items@.len() {
                    item == Some(&items@[index as int])
                } else {
                    item is None
                },
                _ => item is None,
            },
    {
        match self {
            Json::Array(items) => if index < items.len() {
                Some(&items[index])
            } else {
                None
            },
            _ => None,
        }
    }

    /// The value of the first member called `name` of an object; nothing
    /// where there is none, and nothing for any other document.
    pub fn get(&self, name: &str) -> (value: Option<&Json>)
        ensures
            match *self {
                Json::Object(object) => match value {
                    Some(found) => spec_lookup(object@, name@) == Some(*found),
                    None => spec_lookup(object@, name@) is None,
                },
                _ => value is None,
            },
    {
        match self {
            Json::Object(object) => object.get(name),
            _ => None,
        }
    }
}

} // verus!
