//! Format adapters: decoding front-matter text into a structured
//! [`Datum`](crate::value::Datum) and re-encoding it. The decoding and
//! encoding themselves are done by outside codec crates; the library
//! names their results and reasons about everything downstream.

use vstd::prelude::*;

use crate::value::{Datum, Scalar};

verus! {

/// The structured value that decoding a YAML document yields, or `None`
/// where the text is not well-formed YAML (or holds a scalar the library
/// cannot carry). A function of the text alone.
pub uninterp spec fn yaml_value_of(s: Seq<char>) -> Option<Datum>;

/// The structured value that decoding a TOML document yields, or `None`
/// where the text is not well-formed TOML. A function of the text alone.
pub uninterp spec fn toml_value_of(s: Seq<char>) -> Option<Datum>;

/// The YAML text that encoding a structured value yields. A function of
/// the value alone.
pub uninterp spec fn yaml_text_of(v: Datum) -> Seq<char>;

/// The TOML text that encoding a structured value yields. A function of
/// the value alone.
pub uninterp spec fn toml_text_of(v: Datum) -> Seq<char>;

#[verifier::external_type_specification]
#[verifier::external_body]
pub struct ExYamlDoc(serde_yaml::Value);

#[verifier::external_type_specification]
#[verifier::external_body]
pub struct ExYamlScalar(serde_yaml::value::Number);

#[verifier::external_type_specification]
#[verifier::external_body]
pub struct ExTomlDoc(toml::Value);

/// Relies on serde_yaml::from_str: the decoded document is a function of
/// the text alone, and malformed text decodes to an error.
#[verifier::external_body]
pub fn decode_yaml(text: &str) -> (r: Option<Datum>)
    ensures
        r == yaml_value_of(text@),
{
    match serde_yaml::from_str::<serde_yaml::Value>(text) {
        Ok(parsed) => datum_of_yaml(parsed),
        Err(_) => None,
    }
}

/// Relies on toml::de::from_str: the decoded document is a function of
/// the text alone, and malformed text decodes to an error.
#[verifier::external_body]
pub fn decode_toml(text: &str) -> (r: Option<Datum>)
    ensures
        r == toml_value_of(text@),
{
    match toml::from_str::<toml::Value>(text) {
        Ok(parsed) => datum_of_toml(parsed),
        Err(_) => None,
    }
}

/// Relies on serde_yaml::to_string: the encoded document is a function
/// of the value alone.
#[verifier::external_body]
pub fn encode_yaml(v: &Datum) -> (r: String)
    ensures
        r@ == yaml_text_of(*v),
{
    serde_yaml::to_string(&yaml_of_datum(v)).unwrap_or_default()
}

/// Relies on toml::to_string: the encoded document is a function of the
/// value alone. A value the TOML data model cannot carry encodes to the
/// empty string.
#[verifier::external_body]
pub fn encode_toml(v: &Datum) -> (r: String)
    ensures
        r@ == toml_text_of(*v),
{
    match toml_of_datum(v) {
        Some(t) => toml::to_string(&t).unwrap_or_default(),
        None => String::new(),
    }
}

/// Relies on serde_yaml::to_string, as [`encode_yaml`] does, for the
/// common case of encoding a property list as a mapping.
#[verifier::external_body]
pub fn encode_yaml_map(properties: &Vec<(String, Datum)>) -> (r: String)
    ensures
        r@ == yaml_text_of(Datum::Mapping(*properties)),
{
    let m: serde_yaml::Mapping = properties.iter().map(|(k, v)| (serde_yaml::Value::String(k.clone()), yaml_of_datum(v))).collect();
    serde_yaml::to_string(&serde_yaml::Value::Mapping(m)).unwrap_or_default()
}

/// Relies on toml::to_string, as [`encode_toml`] does, for the common
/// case of encoding a property list as a table.
#[verifier::external_body]
pub fn encode_toml_map(properties: &Vec<(String, Datum)>) -> (r: String)
    ensures
        r@ == toml_text_of(Datum::Mapping(*properties)),
{
    let table = properties.iter().map(|(k, v)| Some((k.clone(), toml_of_datum(v)?))).collect::<Option<toml::Table>>();
    match table {
        Some(t) => toml::to_string(&t).unwrap_or_default(),
        None => String::new(),
    }
}

/// Conversion helper for [`decode_yaml`]: moves each serde_yaml variant
/// into the library's value type, one arm per variant. Tagged values and
/// non-text map keys have no counterpart and yield `None`.
#[verifier::external_body]
fn datum_of_yaml(v: serde_yaml::Value) -> Option<Datum> {
    match v {
        serde_yaml::Value::Null => Some(Datum::Null),
        serde_yaml::Value::Bool(b) => Some(Datum::Boolean(b)),
        serde_yaml::Value::Number(n) => Some(Datum::Number(scalar_of_yaml(n)?)),
        serde_yaml::Value::String(s) => Some(Datum::Text(s)),
        serde_yaml::Value::Sequence(items) => datums_of_yaml_items(items),
        serde_yaml::Value::Mapping(entries) => datums_of_yaml_entries(entries.into_iter().collect()),
        serde_yaml::Value::Tagged(_) => None,
    }
}

/// Conversion helper for [`decode_yaml`]: a sequence's elements, each
/// converted in order.
#[verifier::external_body]
fn datums_of_yaml_items(items: Vec<serde_yaml::Value>) -> Option<Datum> {
    Some(Datum::Array(items.into_iter().map(datum_of_yaml).collect::<Option<Vec<Datum>>>()?))
}

/// Conversion helper for [`decode_yaml`]: a mapping's entries in order;
/// a non-text key has no counterpart and yields `None`.
#[verifier::external_body]
fn datums_of_yaml_entries(entries: Vec<(serde_yaml::Value, serde_yaml::Value)>) -> Option<Datum> {
    Some(Datum::Mapping(entries.into_iter().map(|(k, v)| Some((k.as_str()?.to_owned(), datum_of_yaml(v)?))).collect::<Option<Vec<(String, Datum)>>>()?))
}

/// Conversion helper for [`decode_yaml`]: a YAML number becomes an
/// integer where it fits an i64, else the canonical text of its float
/// value. An unsigned value beyond i64 has no lossless counterpart and
/// yields `None`.
#[verifier::external_body]
fn scalar_of_yaml(n: serde_yaml::value::Number) -> Option<Scalar> {
    if let Some(i) = n.as_i64() {
        Some(Scalar::Integer(i))
    } else if n.is_f64() {
        Some(Scalar::Float(canon_float_text(n)?))
    } else {
        None
    }
}

/// Conversion helper shared by the decoders: the canonical text of a
/// float, always float-marked so that re-reading it yields a float
/// again — the debug formatting keeps a trailing `.0` on whole numbers,
/// and the non-finite values use their YAML spellings (a NaN keeps its
/// kind, not its payload bits).
#[verifier::external_body]
fn canon_float_text(n: serde_yaml::value::Number) -> Option<String> {
    let f = n.as_f64()?;
    Some(if f.is_nan() {
        ".nan".to_string()
    } else if f.is_infinite() && f.is_sign_positive() {
        ".inf".to_string()
    } else if f.is_infinite() {
        "-.inf".to_string()
    } else {
        format!("{:?}", f)
    })
}

/// Conversion helper shared by the encoders: re-read canonical float
/// text as a typed float value, accepting the non-finite spellings.
#[verifier::external_body]
fn parse_float_text(text: &str) -> Option<toml::Value> {
    let plain = if text == ".nan" {
        "NaN"
    } else if text == ".inf" {
        "inf"
    } else if text == "-.inf" {
        "-inf"
    } else {
        text
    };
    Some(toml::Value::Float(plain.parse().ok()?))
}

/// Conversion helper for [`encode_yaml`]: moves each library value back
/// into the serde_yaml value type, one arm per variant. A float is
/// rebuilt typed from its canonical text, so its kind survives.
#[verifier::external_body]
fn yaml_of_datum(v: &Datum) -> serde_yaml::Value {
    match v {
        Datum::Null => serde_yaml::Value::Null,
        Datum::Boolean(b) => serde_yaml::Value::Bool(*b),
        Datum::Text(s) => serde_yaml::Value::String(s.clone()),
        Datum::Number(Scalar::Integer(i)) => serde_yaml::Value::Number((*i).into()),
        Datum::Number(Scalar::Float(text)) => match parse_float_text(text) {
            Some(toml::Value::Float(f)) => serde_yaml::Value::Number(f.into()),
            _ => serde_yaml::Value::Null,
        },
        Datum::Array(items) => yaml_of_items(items),
        Datum::Mapping(entries) => yaml_of_entries(entries),
    }
}

/// Conversion helper for [`encode_yaml`]: a sequence back, element by
/// element.
#[verifier::external_body]
fn yaml_of_items(items: &Vec<Datum>) -> serde_yaml::Value {
    serde_yaml::Value::Sequence(items.iter().map(yaml_of_datum).collect())
}

/// Conversion helper for [`encode_yaml`]: a mapping back, entry by
/// entry, in order.
#[verifier::external_body]
fn yaml_of_entries(entries: &Vec<(String, Datum)>) -> serde_yaml::Value {
    serde_yaml::Value::Mapping(entries.iter().map(|(k, v)| (serde_yaml::Value::String(k.clone()), yaml_of_datum(v))).collect())
}

/// Conversion helper for [`decode_toml`]: moves each toml variant into
/// the library's value type, one arm per variant. A datetime is carried
/// as its text.
#[verifier::external_body]
fn datum_of_toml(v: toml::Value) -> Option<Datum> {
    match v {
        toml::Value::String(s) => Some(Datum::Text(s)),
        toml::Value::Integer(i) => Some(Datum::Number(Scalar::Integer(i))),
        toml::Value::Float(f) => Some(Datum::Number(Scalar::Float(canon_float_text(f.into())?))),
        toml::Value::Boolean(b) => Some(Datum::Boolean(b)),
        toml::Value::Datetime(d) => Some(Datum::Text(d.to_string())),
        toml::Value::Array(items) => datums_of_toml_items(items),
        toml::Value::Table(entries) => datums_of_toml_entries(entries.into_iter().collect()),
    }
}

/// Conversion helper for [`decode_toml`]: an array's elements, each
/// converted in order.
#[verifier::external_body]
fn datums_of_toml_items(items: Vec<toml::Value>) -> Option<Datum> {
    Some(Datum::Array(items.into_iter().map(datum_of_toml).collect::<Option<Vec<Datum>>>()?))
}

/// Conversion helper for [`decode_toml`]: a table's entries in order.
#[verifier::external_body]
fn datums_of_toml_entries(entries: Vec<(String, toml::Value)>) -> Option<Datum> {
    Some(Datum::Mapping(entries.into_iter().map(|(k, v)| Some((k, datum_of_toml(v)?))).collect::<Option<Vec<(String, Datum)>>>()?))
}

/// Conversion helper for [`encode_toml`]: moves each library value back
/// into the toml value type, one arm per variant. Null has no TOML
/// counterpart and yields `None`; a float is recovered by parsing its
/// stored decimal text.
#[verifier::external_body]
fn toml_of_datum(v: &Datum) -> Option<toml::Value> {
    match v {
        Datum::Null => None,
        Datum::Boolean(b) => Some(toml::Value::Boolean(*b)),
        Datum::Text(s) => Some(toml::Value::String(s.clone())),
        Datum::Number(Scalar::Integer(i)) => Some(toml::Value::Integer(*i)),
        Datum::Number(Scalar::Float(text)) => parse_float_text(text),
        Datum::Array(items) => toml_of_items(items),
        Datum::Mapping(entries) => toml_of_entries(entries),
    }
}

/// Conversion helper for [`encode_toml`]: a sequence back, element by
/// element.
#[verifier::external_body]
fn toml_of_items(items: &Vec<Datum>) -> Option<toml::Value> {
    Some(toml::Value::Array(items.iter().map(toml_of_datum).collect::<Option<Vec<toml::Value>>>()?))
}

/// Conversion helper for [`encode_toml`]: a table back, entry by entry,
/// in order.
#[verifier::external_body]
fn toml_of_entries(entries: &Vec<(String, Datum)>) -> Option<toml::Value> {
    Some(toml::Value::Table(entries.iter().map(|(k, v)| Some((k.clone(), toml_of_datum(v)?))).collect::<Option<toml::Table>>()?))
}

} // verus!
