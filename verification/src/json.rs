//! JSON documents: what a `serde_json::Value` holds, and the accessors that the
//! readers of job files, manifests and receipts use.
use vstd::prelude::*;

verus! {

/// A number of a JSON document: an integer, or a float by its IEEE bits.
pub enum NumberModel {
    Natural(u64),
    Negative(i64),
    Float(u64),
}

/// What a JSON document holds.
pub enum JsonModel {
    Null,
    Bool(bool),
    Number(NumberModel),
    Text(Seq<char>),
    Array(Seq<JsonModel>),
    Object(Map<Seq<char>, JsonModel>),
}

#[verifier::external_type_specification]
#[verifier::external_body]
pub struct ExValue(serde_json::Value);

/// What a `serde_json::Value` holds.
pub uninterp spec fn json_model(value: serde_json::Value) -> JsonModel;

/// What `serde_json` reads from a text: the document, or its error message.
pub uninterp spec fn json_document(text: Seq<char>) -> Result<JsonModel, Seq<char>>;

/// What `serde_json` reads from bytes: the document, or its error message.
pub uninterp spec fn json_bytes_document(bytes: Seq<u8>) -> Result<JsonModel, Seq<char>>;

/// The bytes that `serde_json` writes for a document.
pub uninterp spec fn json_encoding(document: JsonModel) -> Seq<u8>;

/// The bits of the double nearest to a document's number.
pub uninterp spec fn number_bits(number: NumberModel) -> u64;

/// A parsed document, or the message of the error, as its contents.
pub open spec fn parsed(r: Result<serde_json::Value, String>) -> Result<JsonModel, Seq<char>> {
    match r {
        Ok(v) => Ok(json_model(v)),
        Err(e) => Err(e@),
    }
}

/// `serde_json::from_str` into a `Value`; the error is kept as its message.
/// The JSON grammar is not restated: the outcome is named.
#[verifier::external_body]
pub(crate) fn parse_text(text: &str) -> (r: Result<serde_json::Value, String>)
    ensures
        parsed(r) == json_document(text@),
{
    serde_json::from_str(text).map_err(|error| error.to_string())
}

/// `serde_json::from_slice` into a `Value`; the error is kept as its message.
/// The JSON grammar is not restated: the outcome is named.
#[verifier::external_body]
pub(crate) fn parse_bytes(bytes: &[u8]) -> (r: Result<serde_json::Value, String>)
    ensures
        parsed(r) == json_bytes_document(bytes@),
{
    serde_json::from_slice(bytes).map_err(|error| error.to_string())
}

/// `serde_json::to_vec` of a `Value`, which holds string keys and finite
/// numbers only and so always serialises. The compact encoding is named.
#[verifier::external_body]
pub(crate) fn encode(value: &serde_json::Value) -> (r: Vec<u8>)
    ensures
        r@ == json_encoding(json_model(*value)),
{
    serde_json::to_vec(value).unwrap_or_default()
}

/// The member of an object by its key.
pub open spec fn at(document: JsonModel, key: Seq<char>) -> Option<JsonModel> {
    match document {
        JsonModel::Object(members) => if members.dom().contains(key) {
            Some(members[key])
        } else {
            None
        },
        _ => None,
    }
}

/// What an optional value holds.
pub open spec fn opt_model(value: Option<&serde_json::Value>) -> Option<JsonModel> {
    match value {
        Some(v) => Some(json_model(*v)),
        None => None,
    }
}

/// What a list of values holds.
pub open spec fn models(values: Seq<serde_json::Value>) -> Seq<JsonModel> {
    Seq::new(values.len(), |i: int| json_model(values[i]))
}

/// `Value::get` with a string: the member of an object, nothing otherwise.
#[verifier::external_body]
pub(crate) fn member<'a>(value: &'a serde_json::Value, key: &str) -> (r: Option<
    &'a serde_json::Value,
>)
    ensures
        opt_model(r) == at(json_model(*value), key@),
{
    value.get(key)
}

pub open spec fn array_of(document: JsonModel) -> Option<Seq<JsonModel>> {
    match document {
        JsonModel::Array(items) => Some(items),
        _ => None,
    }
}

/// `Value::as_array`: the items of an array in order, nothing otherwise.
#[verifier::external_body]
pub(crate) fn elements(value: &serde_json::Value) -> (r: Option<&Vec<serde_json::Value>>)
    ensures
        match r {
            Some(items) => array_of(json_model(*value)) == Some(models(items@)),
            None => array_of(json_model(*value)) is None,
        },
{
    value.as_array()
}

pub open spec fn text_of(document: JsonModel) -> Option<Seq<char>> {
    match document {
        JsonModel::Text(text) => Some(text),
        _ => None,
    }
}

/// The text of an optional document.
pub open spec fn text_in(document: Option<JsonModel>) -> Option<Seq<char>> {
    match document {
        Some(v) => text_of(v),
        None => None,
    }
}

/// The text of an optional borrowed string.
pub open spec fn opt_str(s: Option<&str>) -> Option<Seq<char>> {
    match s {
        Some(t) => Some(t@),
        None => None,
    }
}

/// `Value::as_str`: the text of a string, nothing otherwise.
#[verifier::external_body]
pub(crate) fn as_text(value: &serde_json::Value) -> (r: Option<&str>)
    ensures
        opt_str(r) == text_of(json_model(*value)),
{
    value.as_str()
}

pub open spec fn natural_of(document: JsonModel) -> Option<u64> {
    match document {
        JsonModel::Number(NumberModel::Natural(n)) => Some(n),
        _ => None,
    }
}

/// `Value::as_u64`: a nonnegative integer that fits, nothing otherwise.
#[verifier::external_body]
pub(crate) fn as_natural(value: &serde_json::Value) -> (r: Option<u64>)
    ensures
        r == natural_of(json_model(*value)),
{
    value.as_u64()
}

pub open spec fn integer_of(document: JsonModel) -> Option<i64> {
    match document {
        JsonModel::Number(NumberModel::Natural(n)) => if n <= i64::MAX {
            Some(n as i64)
        } else {
            None
        },
        JsonModel::Number(NumberModel::Negative(n)) => Some(n),
        _ => None,
    }
}

/// `Value::as_i64`: an integer that fits, nothing otherwise.
#[verifier::external_body]
pub(crate) fn as_integer(value: &serde_json::Value) -> (r: Option<i64>)
    ensures
        r == integer_of(json_model(*value)),
{
    value.as_i64()
}

pub open spec fn bits_of(document: JsonModel) -> Option<u64> {
    match document {
        JsonModel::Number(n) => Some(number_bits(n)),
        _ => None,
    }
}

/// `Value::as_f64`, as IEEE bits: the number of a document as a double. A
/// float keeps its own bits; how an integer rounds is only named.
#[verifier::external_body]
pub(crate) fn as_bits(value: &serde_json::Value) -> (r: Option<u64>)
    ensures
        json_model(*value) is Number ==> r == Some(number_bits(json_model(*value)->Number_0)),
        !(json_model(*value) is Number) ==> r is None,
        json_model(*value) is Number && json_model(*value)->Number_0 is Float ==> r == Some(
            json_model(*value)->Number_0->Float_0,
        ),
{
    value.as_f64().map(|number| number.to_bits())
}

pub open spec fn bool_of(document: JsonModel) -> Option<bool> {
    match document {
        JsonModel::Bool(b) => Some(b),
        _ => None,
    }
}

/// `Value::as_bool`: a boolean, nothing otherwise.
#[verifier::external_body]
pub(crate) fn as_flag(value: &serde_json::Value) -> (r: Option<bool>)
    ensures
        r == bool_of(json_model(*value)),
{
    value.as_bool()
}

/// `Value::is_null`.
#[verifier::external_body]
pub(crate) fn is_null(value: &serde_json::Value) -> (r: bool)
    ensures
        r == (json_model(*value) is Null),
{
    value.is_null()
}

/// `Value::is_object`.
#[verifier::external_body]
pub(crate) fn is_object(value: &serde_json::Value) -> (r: bool)
    ensures
        r == (json_model(*value) is Object),
{
    value.is_object()
}

/// The keys of an object through `Value::as_object` and `Map::keys`: each key
/// once and, the map being a `BTreeMap`, in the order of strings; nothing for
/// any other document.
#[verifier::external_body]
pub(crate) fn object_keys(value: &serde_json::Value) -> (r: Option<Vec<String>>)
    ensures
        r is Some == json_model(*value) is Object,
        match r {
            Some(keys) => crate::order::ascending(crate::text::texts(keys@)) && crate::text::texts(
                keys@,
            ).to_set() == json_model(*value)->Object_0.dom(),
            None => true,
        },
{
    value.as_object().map(|members| members.keys().cloned().collect())
}

/// `Value::clone`.
#[verifier::external_body]
pub(crate) fn copy_value(value: &serde_json::Value) -> (r: serde_json::Value)
    ensures
        json_model(r) == json_model(*value),
{
    value.clone()
}

/// Whether two numbers are equal as `serde_json` compares them: of one kind,
/// and of one value; the two float zeros are equal.
pub open spec fn same_number(a: NumberModel, b: NumberModel) -> bool {
    match (a, b) {
        (NumberModel::Float(x), NumberModel::Float(y)) => x == y || (is_zero_bits(x)
            && is_zero_bits(y)),
        _ => a == b,
    }
}

pub open spec fn is_zero_bits(bits: u64) -> bool {
    bits == 0 || bits == 0x8000_0000_0000_0000
}

/// Whether two documents are equal as `serde_json` compares them.
pub open spec fn same_document(a: JsonModel, b: JsonModel) -> bool
    decreases a,
{
    match (a, b) {
        (JsonModel::Number(x), JsonModel::Number(y)) => same_number(x, y),
        (JsonModel::Array(x), JsonModel::Array(y)) => x.len() == y.len() && forall|i: int|
            0 <= i < x.len() ==> same_document(#[trigger] x[i], y[i]),
        (JsonModel::Object(x), JsonModel::Object(y)) => x.dom() == y.dom() && x.dom().finite()
            && forall|k: Seq<char>|
            x.dom().contains(k) ==> same_document(#[trigger] x[k], y[k]),
        _ => a == b,
    }
}

/// `==` on `Value`.
#[verifier::external_body]
pub(crate) fn equal_values(a: &serde_json::Value, b: &serde_json::Value) -> (r: bool)
    ensures
        r == same_document(json_model(*a), json_model(*b)),
{
    a == b
}

// ---------------------------------------------------------------------------
// Members by type
// ---------------------------------------------------------------------------

pub open spec fn text_at(document: JsonModel, key: Seq<char>) -> Option<Seq<char>> {
    match at(document, key) {
        Some(v) => text_of(v),
        None => None,
    }
}

pub fn member_text<'a>(value: &'a serde_json::Value, key: &str) -> (r: Option<&'a str>)
    ensures
        opt_str(r) == text_at(json_model(*value), key@),
{
    match member(value, key) {
        Some(v) => as_text(v),
        None => None,
    }
}

pub open spec fn natural_at(document: JsonModel, key: Seq<char>) -> Option<u64> {
    match at(document, key) {
        Some(v) => natural_of(v),
        None => None,
    }
}

pub fn member_natural(value: &serde_json::Value, key: &str) -> (r: Option<u64>)
    ensures
        r == natural_at(json_model(*value), key@),
{
    match member(value, key) {
        Some(v) => as_natural(v),
        None => None,
    }
}

pub open spec fn integer_at(document: JsonModel, key: Seq<char>) -> Option<i64> {
    match at(document, key) {
        Some(v) => integer_of(v),
        None => None,
    }
}

pub fn member_integer(value: &serde_json::Value, key: &str) -> (r: Option<i64>)
    ensures
        r == integer_at(json_model(*value), key@),
{
    match member(value, key) {
        Some(v) => as_integer(v),
        None => None,
    }
}

pub open spec fn bool_at(document: JsonModel, key: Seq<char>) -> Option<bool> {
    match at(document, key) {
        Some(v) => bool_of(v),
        None => None,
    }
}

pub fn member_flag(value: &serde_json::Value, key: &str) -> (r: Option<bool>)
    ensures
        r == bool_at(json_model(*value), key@),
{
    match member(value, key) {
        Some(v) => as_flag(v),
        None => None,
    }
}

pub open spec fn array_at(document: JsonModel, key: Seq<char>) -> Option<Seq<JsonModel>> {
    match at(document, key) {
        Some(v) => array_of(v),
        None => None,
    }
}

pub fn member_array<'a>(value: &'a serde_json::Value, key: &str) -> (r: Option<
    &'a Vec<serde_json::Value>,
>)
    ensures
        match r {
            Some(items) => array_at(json_model(*value), key@) == Some(models(items@)),
            None => array_at(json_model(*value), key@) is None,
        },
{
    match member(value, key) {
        Some(v) => elements(v),
        None => None,
    }
}

/// The member of a member.
pub open spec fn at2(document: JsonModel, outer: Seq<char>, inner: Seq<char>) -> Option<JsonModel> {
    match at(document, outer) {
        Some(v) => at(v, inner),
        None => None,
    }
}

pub fn member2<'a>(value: &'a serde_json::Value, outer: &str, inner: &str) -> (r: Option<
    &'a serde_json::Value,
>)
    ensures
        opt_model(r) == at2(json_model(*value), outer@, inner@),
{
    match member(value, outer) {
        Some(v) => member(v, inner),
        None => None,
    }
}

// ---------------------------------------------------------------------------
// Doubles by their bits
// ---------------------------------------------------------------------------

/// Whether the bits are those of a finite double.
pub open spec fn finite_bits(bits: u64) -> bool {
    (bits as nat / 0x10_0000_0000_0000) % 0x800 != 0x7ff
}

/// The magnitude of a double's bits: the order of the magnitudes of doubles.
pub open spec fn magnitude(bits: u64) -> nat {
    bits as nat % 0x8000_0000_0000_0000
}

/// An integer that orders finite doubles as `<` does, with one zero.
pub open spec fn double_key(bits: u64) -> int {
    if bits >= 0x8000_0000_0000_0000 {
        -(magnitude(bits) as int)
    } else {
        magnitude(bits) as int
    }
}

pub fn is_finite_double(bits: u64) -> (r: bool)
    ensures
        r == finite_bits(bits),
{
    (bits / 0x10_0000_0000_0000) % 0x800 != 0x7ff
}

/// The ordering key of a double.
pub fn key_of_double(bits: u64) -> (r: i64)
    ensures
        r == double_key(bits),
{
    let m: u64 = bits % 0x8000_0000_0000_0000;
    if bits >= 0x8000_0000_0000_0000 {
        -(m as i64)
    } else {
        m as i64
    }
}

} // verus!
