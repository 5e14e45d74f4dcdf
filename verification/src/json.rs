//! JSON values.

use std::sync::Arc;

use serde_json::Value;
use vstd::prelude::*;
use vstd::string::*;

use crate::textmap::TextMap;

verus! {

/// A JSON number.
#[derive(Debug)]
pub enum Number {
    /// A whole number that is not negative.
    Unsigned(u64),
    /// A negative whole number.
    Negative(i64),
    /// Any other number, as it is written.
    Other(String),
}

impl Clone for Number {
    fn clone(&self) -> (r: Self)
        ensures
            r == *self,
    {
        match self {
            Number::Unsigned(n) => Number::Unsigned(*n),
            Number::Negative(n) => Number::Negative(*n),
            Number::Other(s) => Number::Other(s.clone()),
        }
    }
}

/// A JSON value. Copies share their elements and members.
#[derive(Debug)]
pub enum Json {
    Null,
    Bool(bool),
    Number(Number),
    Text(String),
    Array(Arc<Vec<Json>>),
    Object(Arc<TextMap<Json>>),
}

/// `Arc::clone` of the standard library: another pointer to the same value.
#[verifier::external_body]
fn share<T>(pointer: &Arc<T>) -> (r: Arc<T>)
    ensures
        r == *pointer,
{
    Arc::clone(pointer)
}

impl Clone for Json {
    fn clone(&self) -> (r: Self)
        ensures
            r == *self,
    {
        match self {
            Json::Null => Json::Null,
            Json::Bool(b) => Json::Bool(*b),
            Json::Number(n) => Json::Number(n.clone()),
            Json::Text(s) => Json::Text(s.clone()),
            Json::Array(elements) => Json::Array(share(elements)),
            Json::Object(members) => Json::Object(share(members)),
        }
    }
}

/// The members of an object that is being put together.
#[derive(Debug)]
pub struct JsonObject {
    members: TextMap<Json>,
}

impl View for JsonObject {
    type V = Map<Seq<char>, Json>;

    closed spec fn view(&self) -> Map<Seq<char>, Json> {
        self.members@
    }
}

/// What a value is meant to be, for contracts that write a whole value down.
pub enum Plain {
    Null,
    Bool(bool),
    Unsigned(u64),
    Text(Seq<char>),
    Array(Seq<Plain>),
    Object(Map<Seq<char>, Plain>),
    /// A value that is given.
    Given(Json),
}

/// `value` is what `plain` says, member by member and element by element.
pub open spec fn shows(value: Json, plain: Plain) -> bool
    decreases plain,
{
    match plain {
        Plain::Null => value == Json::Null,
        Plain::Bool(b) => value == Json::Bool(b),
        Plain::Unsigned(n) => value == Json::Number(Number::Unsigned(n)),
        Plain::Text(s) => value.text() == Some(s),
        Plain::Array(items) => {
            &&& value.elements() is Some
            &&& value.elements()->0.len() == items.len()
            &&& forall|i: int|
                0 <= i < items.len() ==> shows(value.elements()->0[i], #[trigger] items[i])
        },
        Plain::Object(members) => {
            &&& value is Object
            &&& value->Object_0@.dom() == members.dom()
            &&& forall|key: Seq<char>| #[trigger]
                members.contains_key(key) ==> shows(value->Object_0@[key], members[key])
        },
        Plain::Given(given) => value == given,
    }
}

/// Each member is what is said of it, and there is no other.
pub open spec fn agree(members: Map<Seq<char>, Json>, plain: Map<Seq<char>, Plain>) -> bool {
    &&& members.dom() == plain.dom()
    &&& forall|key: Seq<char>| #[trigger]
        plain.contains_key(key) ==> shows(members[key], plain[key])
}

impl JsonObject {
    /// The object with the member `key` set to `value`.
    pub fn with(self, key: &str, value: Json) -> (r: JsonObject)
        ensures
            r@ == self@.insert(key@, value),
            forall|plain: Map<Seq<char>, Plain>, p: Plain|
                agree(self@, plain) && shows(value, p) ==> #[trigger] agree(
                    r@,
                    plain.insert(key@, p),
                ),
    {
        let mut members = self.members;
        members.insert(key.to_owned(), value);
        let r = JsonObject { members };
        assert forall|plain: Map<Seq<char>, Plain>, p: Plain|
            agree(self@, plain) && shows(value, p) implies #[trigger] agree(
            r@,
            plain.insert(key@, p),
        ) by {
            let after = plain.insert(key@, p);
            assert(r@.dom() =~= after.dom());
            assert forall|k: Seq<char>| #[trigger] after.contains_key(k) implies shows(
                r@[k],
                after[k],
            ) by {
                if k != key@ {
                    assert(plain.contains_key(k));
                }
            }
        }
        r
    }

    /// The object as a value.
    pub fn build(self) -> (r: Json)
        ensures
            r is Object,
            r->Object_0@ == self@,
            forall|plain: Map<Seq<char>, Plain>|
                agree(self@, plain) ==> #[trigger] shows(r, Plain::Object(plain)),
    {
        Json::Object(Arc::new(self.members))
    }
}

impl Json {
    /// The member `key` of an object.
    pub open spec fn member(self, key: Seq<char>) -> Option<Json> {
        match self {
            Json::Object(members) => if members@.contains_key(key) {
                Some(members@[key])
            } else {
                None
            },
            _ => None,
        }
    }

    /// The characters of a text value.
    pub open spec fn text(self) -> Option<Seq<char>> {
        match self {
            Json::Text(s) => Some(s@),
            _ => None,
        }
    }

    /// The elements of an array.
    pub open spec fn elements(self) -> Option<Seq<Json>> {
        match self {
            Json::Array(items) => Some(items@),
            _ => None,
        }
    }

    /// The value as a whole number that is not negative.
    pub open spec fn unsigned(self) -> Option<u64> {
        match self {
            Json::Number(Number::Unsigned(n)) => Some(n),
            _ => None,
        }
    }

    /// The value as a whole number in the range of `i64`.
    pub open spec fn signed(self) -> Option<i64> {
        match self {
            Json::Number(Number::Unsigned(n)) => if n <= i64::MAX {
                Some(n as i64)
            } else {
                None
            },
            Json::Number(Number::Negative(n)) => Some(n),
            _ => None,
        }
    }

    /// The text of the member `key`.
    pub open spec fn member_text(self, key: Seq<char>) -> Option<Seq<char>> {
        match self.member(key) {
            Some(value) => value.text(),
            None => None,
        }
    }

    /// The member `inner` of the member `outer`.
    pub open spec fn nested(self, outer: Seq<char>, inner: Seq<char>) -> Option<Json> {
        match self.member(outer) {
            Some(value) => value.member(inner),
            None => None,
        }
    }

    /// Looks up the member `key` of an object.
    pub fn get(&self, key: &str) -> (r: Option<&Json>)
        ensures
            match r {
                Some(value) => self.member(key@) == Some(*value),
                None => self.member(key@) is None,
            },
    {
        match self {
            Json::Object(members) => members.get(key),
            _ => None,
        }
    }

    /// The text, where the value is one.
    pub fn as_str(&self) -> (r: Option<&str>)
        ensures
            match r {
                Some(s) => self.text() == Some(s@),
                None => self.text() is None,
            },
    {
        match self {
            Json::Text(s) => Some(s.as_str()),
            _ => None,
        }
    }

    /// The elements, where the value is an array.
    pub fn as_array(&self) -> (r: Option<&Vec<Json>>)
        ensures
            match r {
                Some(items) => self.elements() == Some(items@),
                None => self.elements() is None,
            },
    {
        match self {
            Json::Array(items) => Some(items),
            _ => None,
        }
    }

    /// The truth value, where the value is one.
    pub fn as_bool(&self) -> (r: Option<bool>)
        ensures
            r == (match *self {
                Json::Bool(b) => Some(b),
                _ => None,
            }),
    {
        match self {
            Json::Bool(b) => Some(*b),
            _ => None,
        }
    }

    /// The number, where the value is whole and not negative.
    pub fn as_u64(&self) -> (r: Option<u64>)
        ensures
            r == self.unsigned(),
    {
        match self {
            Json::Number(Number::Unsigned(n)) => Some(*n),
            _ => None,
        }
    }

    /// The number, where the value is whole and fits in `i64`.
    pub fn as_i64(&self) -> (r: Option<i64>)
        ensures
            r == self.signed(),
    {
        match self {
            Json::Number(Number::Unsigned(n)) => if *n <= i64::MAX as u64 {
                Some(*n as i64)
            } else {
                None
            },
            Json::Number(Number::Negative(n)) => Some(*n),
            _ => None,
        }
    }

    /// The text of the member `key` of an object.
    pub fn get_str(&self, key: &str) -> (r: Option<&str>)
        ensures
            match r {
                Some(s) => self.member_text(key@) == Some(s@),
                None => self.member_text(key@) is None,
            },
    {
        match self.get(key) {
            Some(value) => value.as_str(),
            None => None,
        }
    }

    /// The member `inner` of the member `outer`.
    pub fn get_nested(&self, outer: &str, inner: &str) -> (r: Option<&Json>)
        ensures
            match r {
                Some(value) => self.nested(outer@, inner@) == Some(*value),
                None => self.nested(outer@, inner@) is None,
            },
    {
        match self.get(outer) {
            Some(value) => value.get(inner),
            None => None,
        }
    }

    /// Whether the member `key` is the value `true`.
    pub fn is_true(&self, key: &str) -> (r: bool)
        ensures
            r == (self.member(key@) == Some(Json::Bool(true))),
    {
        match self.get(key) {
            Some(Json::Bool(b)) => *b,
            _ => false,
        }
    }

    /// What stands at a path of member names.
    pub open spec fn pointed(self, path: Seq<&'static str>) -> Option<Json>
        decreases path.len(),
    {
        if path.len() == 0 {
            Some(self)
        } else {
            match self.member(path[0]@) {
                Some(value) => value.pointed(path.skip(1)),
                None => None,
            }
        }
    }

    /// What stands at a path of member names.
    pub fn pointer(&self, path: &Vec<&'static str>) -> (r: Option<&Json>)
        ensures
            match r {
                Some(value) => self.pointed(path@) == Some(*value),
                None => self.pointed(path@) is None,
            },
    {
        let mut value: &Json = self;
        let mut i: usize = 0;
        assert(path@.skip(0) =~= path@);
        while i < path.len()
            invariant
                i <= path@.len(),
                value.pointed(path@.skip(i as int)) == self.pointed(path@),
            decreases path@.len() - i,
        {
            assert(path@.skip(i as int)[0] == path@[i as int]);
            assert(path@.skip(i as int).skip(1) =~= path@.skip(i + 1));
            match value.get(path[i]) {
                Some(inner) => {
                    value = inner;
                },
                None => {
                    return None;
                },
            }
            i += 1;
        }
        Some(value)
    }

    /// Reads a value from bytes, if they are one.
    pub fn from_bytes(bytes: &Vec<u8>) -> (r: Option<Json>)
        ensures
            r == json_in(bytes@),
    {
        parse_bytes(bytes)
    }

    /// Writes the value.
    pub fn to_bytes(&self) -> (r: Vec<u8>)
        ensures
            r@ == json_bytes(*self),
    {
        write_bytes(self)
    }

    /// An object without members, to be put together.
    pub fn object() -> (r: JsonObject)
        ensures
            r@ == Map::<Seq<char>, Json>::empty(),
            agree(r@, Map::empty()),
    {
        JsonObject { members: TextMap::new() }
    }

    /// An array.
    pub fn array(elements: Vec<Json>) -> (r: Json)
        ensures
            r.elements() == Some(elements@),
            forall|items: Seq<Plain>|
                elements@.len() == items.len() && (forall|i: int|
                    0 <= i < items.len() ==> shows(elements@[i], #[trigger] items[i]))
                    ==> #[trigger] shows(r, Plain::Array(items)),
    {
        Json::Array(Arc::new(elements))
    }
}

/// A text value.
pub fn text_value(s: &str) -> (r: Json)
    ensures
        r.text() == Some(s@),
        shows(r, Plain::Text(s@)),
{
    Json::Text(s.to_owned())
}

/// A value that counts something.
pub fn unsigned_value(n: u64) -> (r: Json)
    ensures
        r == Json::Number(Number::Unsigned(n)),
        shows(r, Plain::Unsigned(n)),
{
    Json::Number(Number::Unsigned(n))
}

/// A text, or null where there is none.
pub fn optional_text(s: &Option<String>) -> (r: Json)
    ensures
        shows(
            r,
            match s {
                Some(s) => Plain::Text(s@),
                None => Plain::Null,
            },
        ),
{
    match s {
        Some(s) => text_value(s.as_str()),
        None => Json::Null,
    }
}

/// A value as `serde_json` holds it.
#[verifier::external_type_specification]
#[verifier::external_body]
pub struct ExValue(serde_json::Value);

/// Takes a `serde_json` value over, variant by variant. Of a number, `as_u64`, `as_i64` and
/// `to_string` of `serde_json::Number` give the value or what is written. Nothing is claimed of
/// the result here: what reading a text gives has a name of its own.
#[verifier::external_body]
fn from_value(value: Value) -> Json {
    match value {
        Value::Null => Json::Null,
        Value::Bool(b) => Json::Bool(b),
        Value::Number(n) => match (n.as_u64(), n.as_i64()) {
            (Some(u), _) => Json::Number(Number::Unsigned(u)),
            (_, Some(i)) => Json::Number(Number::Negative(i)),
            _ => Json::Number(Number::Other(n.to_string())),
        },
        Value::String(s) => Json::Text(s),
        Value::Array(items) => Json::array(items.into_iter().map(from_value).collect()),
        Value::Object(m) => m.into_iter().fold(
            Json::object(), |o, (k, v)| o.with(&k, from_value(v))).build(),
    }
}

/// The JSON value that `serde_json` reads from bytes, if they are one.
pub uninterp spec fn json_in(bytes: Seq<u8>) -> Option<Json>;

/// `serde_json::from_slice`. What it accepts and gives is named, not described.
#[verifier::external_body]
pub(crate) fn parse_bytes(bytes: &[u8]) -> (r: Option<Json>)
    ensures
        r == json_in(bytes@),
{
    serde_json::from_slice::<Value>(bytes).ok().map(from_value)
}

/// Reads a JSON value from a text.
pub(crate) fn parse_text(s: &str) -> (r: Option<Json>)
    ensures
        r == json_in(vstd::utf8::encode_utf8(s@)),
{
    parse_bytes(s.as_bytes())
}

/// The value that `toml` reads from a text, if it is a TOML document.
pub uninterp spec fn toml_in(text: Seq<char>) -> Option<Json>;

/// `toml::from_str`. What it accepts and gives is named, not described.
#[verifier::external_body]
pub(crate) fn parse_toml(text: &str) -> (r: Option<Json>)
    ensures
        r == toml_in(text@),
{
    toml::from_str::<Value>(text).ok().map(from_value)
}

/// Hands a value over to `serde_json`, variant by variant. A number that is not whole is read back
/// from how it is written. Nothing is claimed of the result here: what writing a value gives has a
/// name of its own.
#[verifier::external_body]
fn to_value(value: &Json) -> Value {
    match value {
        Json::Null => Value::Null,
        Json::Bool(b) => Value::Bool(*b),
        Json::Number(Number::Unsigned(n)) => Value::from(*n),
        Json::Number(Number::Negative(n)) => Value::from(*n),
        Json::Number(Number::Other(s)) => serde_json::from_str(s).unwrap_or_default(),
        Json::Text(s) => Value::String(s.clone()),
        Json::Array(items) => Value::Array(items.iter().map(to_value).collect()),
        Json::Object(members) => Value::Object(
            (0..members.len()).map(|i| (members.key_at(i).clone(), to_value(members.value_at(i))))
                .collect()),
    }
}

/// The bytes in which `serde_json` writes a value.
pub uninterp spec fn json_bytes(value: Json) -> Seq<u8>;

/// `serde_json::to_vec`. How it writes a value is named, not described.
#[verifier::external_body]
pub(crate) fn write_bytes(value: &Json) -> (r: Vec<u8>)
    ensures
        r@ == json_bytes(*value),
{
    serde_json::to_vec(&to_value(value)).unwrap_or_default()
}

} // verus!
