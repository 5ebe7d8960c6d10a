//! JSON values: a mathematical model of `serde_json::Value` and the calls
//! into `serde_json` that the driver makes.
use vstd::prelude::*;

verus! {

/// A JSON number, in the three forms that `serde_json` tells apart.
pub enum JsonNumber {
    /// An integer from zero up.
    Unsigned(u64),
    /// An integer below zero.
    Negative(i64),
    /// Anything else, by its bit pattern.
    Float(u64),
}

/// What a JSON value holds. Objects are maps: the order of their keys is not
/// part of the value.
pub enum Json {
    Null,
    Bool(bool),
    Number(JsonNumber),
    Text(Seq<char>),
    List(Seq<Json>),
    Object(Map<Seq<char>, Json>),
}

impl Json {
    /// The member `key` of an object; nothing for any other value.
    pub open spec fn member(self, key: Seq<char>) -> Option<Json> {
        match self {
            Json::Object(fields) => if fields.dom().contains(key) {
                Some(fields[key])
            } else {
                None
            },
            _ => None,
        }
    }

    /// The value as an integer from zero up.
    pub open spec fn unsigned(self) -> Option<u64> {
        match self {
            Json::Number(JsonNumber::Unsigned(n)) => Some(n),
            _ => None,
        }
    }

    /// The value as a signed integer.
    pub open spec fn signed(self) -> Option<i64> {
        match self {
            Json::Number(JsonNumber::Unsigned(n)) => if n <= i64::MAX {
                Some(n as i64)
            } else {
                None
            },
            Json::Number(JsonNumber::Negative(n)) => Some(n),
            _ => None,
        }
    }
}

/// Whether `serde_json` reads back what it writes of a value: containers nest
/// at most `depth` deep, and no float lies at the very end of its range,
/// where reading can overflow.
pub open spec fn readable(j: Json, depth: nat) -> bool
    decreases depth,
{
    match j {
        Json::Number(JsonNumber::Float(bits)) => (bits as int / 0x10_0000_0000_0000) % 0x800 < 2046,
        Json::List(items) => depth > 0 && forall|i: int|
            0 <= i < items.len() ==> readable(#[trigger] items[i], (depth - 1) as nat),
        Json::Object(fields) => depth > 0 && forall|k: Seq<char>|
            #[trigger] fields.dom().contains(k) ==> readable(fields[k], (depth - 1) as nat),
        _ => true,
    }
}

/// The depth to which `serde_json` reads nested containers.
pub open spec fn read_depth() -> nat {
    127
}

/// Whether two values are objects with the same keys, or neither is an
/// object, and the same keys lead to the same unsigned numbers.
pub open spec fn same_keys(a: Json, b: Json) -> bool {
    forall|k: Seq<char>| #![trigger a.member(k)] #![trigger b.member(k)]
        {
            &&& a.member(k) is Some <==> b.member(k) is Some
            &&& a.member(k) is Some ==> a.member(k)->0.unsigned() == b.member(k)->0.unsigned()
        }
}

/// Whether two values agree on the keys and unsigned numbers of the first two
/// levels.
pub open spec fn same_outline(a: Json, b: Json) -> bool {
    &&& same_keys(a, b)
    &&& forall|k: Seq<char>| #[trigger] a.member(k) is Some ==> same_keys(a.member(k)->0, b.member(k)->0)
}

/// `serde_json::Value`, held as an opaque value.
#[verifier::external_type_specification]
#[verifier::external_body]
pub struct ExValue(serde_json::Value);

/// `serde_json::Error`, held as an opaque value.
#[verifier::external_type_specification]
#[verifier::external_body]
pub struct ExError(serde_json::Error);

/// What a `serde_json::Value` holds.
pub uninterp spec fn contents(v: serde_json::Value) -> Json;

/// What `serde_json::from_str` makes of a text; nothing where it refuses it.
pub uninterp spec fn parsed(text: Seq<char>) -> Option<Json>;

/// What `serde_json::to_string_pretty` writes of a value.
pub uninterp spec fn pretty_text(j: Json) -> Seq<char>;

/// The number that `serde_json` gives for the floating-point form of another.
pub uninterp spec fn float_form(n: JsonNumber) -> JsonNumber;

/// The floating-point form of a number. A float is its own.
pub open spec fn float_of(n: JsonNumber) -> JsonNumber {
    match n {
        JsonNumber::Float(_) => n,
        _ => float_form(n),
    }
}

/// `serde_json::from_str` into a `serde_json::Value`: the value that a text
/// denotes, or an error where it denotes none. Which texts it takes is left
/// to the name `parsed`.
#[verifier::external_body]
pub(crate) fn parse(text: &str) -> (r: Result<serde_json::Value, serde_json::Error>)
    ensures
        (match r {
            Ok(v) => parsed(text@) == Some(contents(v)),
            Err(_) => parsed(text@) is None,
        }),
{
    serde_json::from_str(text)
}

/// `serde_json::to_string_pretty` of a `serde_json::Value`: always a text,
/// fixed by what the value holds. Where the value does not nest too deeply,
/// reading the text gives back the same keys and whole numbers; floats may
/// come back slightly off.
#[verifier::external_body]
pub(crate) fn pretty(v: &serde_json::Value) -> (r: Result<String, serde_json::Error>)
    ensures
        r is Ok,
        r->Ok_0@ == pretty_text(contents(*v)),
        readable(contents(*v), read_depth()) ==> parsed(r->Ok_0@) is Some && same_outline(
            contents(*v),
            parsed(r->Ok_0@)->0,
        ),
{
    serde_json::to_string_pretty(v)
}

/// `serde_json::Value::get` with a string index: the member of an object, and
/// nothing for a missing key or a value that is no object.
#[verifier::external_body]
pub(crate) fn member<'a>(v: &'a serde_json::Value, key: &str) -> (r: Option<&'a serde_json::Value>)
    ensures
        (match r {
            Some(m) => contents(*v).member(key@) == Some(contents(*m)),
            None => contents(*v).member(key@) is None,
        }),
{
    v.get(key)
}

/// `serde_json::Value::as_u64`: the value as an integer from zero up, where
/// it is one.
#[verifier::external_body]
pub(crate) fn as_unsigned(v: &serde_json::Value) -> (r: Option<u64>)
    ensures
        r == contents(*v).unsigned(),
{
    v.as_u64()
}

/// `serde_json::Value::as_i64`: the value as a signed integer, where it is an
/// integer that fits.
#[verifier::external_body]
pub(crate) fn as_signed(v: &serde_json::Value) -> (r: Option<i64>)
    ensures
        r == contents(*v).signed(),
{
    v.as_i64()
}

/// `serde_json::Value::as_f64`, with the number put back into a value: any
/// number has a floating-point form, and nothing else has one. The form is a
/// float, it is the number itself where that is a float, and it is far from
/// the end of the range where the number is an integer. Which float comes
/// nearest to an integer is left to the name `float_form`.
#[verifier::external_body]
pub(crate) fn as_float(v: &serde_json::Value) -> (r: Option<serde_json::Value>)
    ensures
        r is Some <==> contents(*v) is Number,
        r matches Some(f) ==> contents(f) == Json::Number(float_form(contents(*v)->Number_0)),
        r matches Some(f) ==> contents(f) is Number && contents(f)->Number_0 is Float,
        r matches Some(f) ==> (contents(*v)->Number_0 is Float ==> contents(f) == contents(*v)),
        r matches Some(f) ==> (!(contents(*v)->Number_0 is Float) ==> readable(contents(f), 0)),
{
    v.as_f64().map(serde_json::Value::from)
}

/// `serde_json::Map::keys` of an object: each key once, in some order. Nothing
/// for a value that is no object.
#[verifier::external_body]
pub(crate) fn keys(v: &serde_json::Value) -> (r: Option<Vec<String>>)
    ensures
        r is Some <==> contents(*v) is Object,
        r matches Some(ks) ==> (forall|i: int|
            0 <= i < ks@.len() ==> contents(*v)->Object_0.dom().contains(#[trigger] ks@[i]@)) && (forall|
            k: Seq<char>,
        |
            contents(*v)->Object_0.dom().contains(k) ==> exists|i: int|
                0 <= i < ks@.len() && #[trigger] ks@[i]@ == k),
{
    v.as_object().map(|m| m.keys().cloned().collect())
}

/// `serde_json::Value`'s `Clone`: a value that holds the same.
#[verifier::external_body]
pub(crate) fn copy(v: &serde_json::Value) -> (r: serde_json::Value)
    ensures
        contents(r) == contents(*v),
{
    v.clone()
}

/// `serde_json::Map::new` as a value: the object without members.
#[verifier::external_body]
pub(crate) fn object() -> (r: serde_json::Value)
    ensures
        contents(r) == Json::Object(Map::empty()),
{
    serde_json::Value::Object(serde_json::Map::new())
}

/// Writing through `serde_json::Value`'s `IndexMut` with a string index: the
/// member is set, and added where it was missing. It panics on a value that
/// is neither an object nor null.
#[verifier::external_body]
pub(crate) fn set_member(v: &mut serde_json::Value, key: &str, item: serde_json::Value)
    requires
        contents(*old(v)) is Object,
    ensures
        contents(*final(v)) == Json::Object(
            contents(*old(v))->Object_0.insert(key@, contents(item)),
        ),
{
    v[key] = item;
}

/// `serde_json::Value`'s `From<&str>`: a JSON string.
#[verifier::external_body]
pub(crate) fn text(s: &str) -> (r: serde_json::Value)
    ensures
        contents(r) == Json::Text(s@),
{
    serde_json::Value::from(s)
}

/// `serde_json::Value`'s `From<bool>`: a JSON truth value.
#[verifier::external_body]
pub(crate) fn boolean(b: bool) -> (r: serde_json::Value)
    ensures
        contents(r) == Json::Bool(b),
{
    serde_json::Value::from(b)
}

/// `serde_json::Value`'s `From<u64>`: a JSON integer.
#[verifier::external_body]
pub(crate) fn unsigned(n: u64) -> (r: serde_json::Value)
    ensures
        contents(r) == Json::Number(JsonNumber::Unsigned(n)),
{
    serde_json::Value::from(n)
}

} // verus!
