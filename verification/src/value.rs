//! A generic dynamic value holding decoded front-matter payloads,
//! independent of their source format.

use vstd::prelude::*;

verus! {

/// A scalar number: an integer, or a float carried as canonical
/// float-marked decimal text that re-reads to the same host float (a
/// whole number keeps its `.0`; the non-finite values use their YAML
/// spellings, so a NaN keeps its kind, not its payload bits). Keeping
/// the float as text lets the integer-vs-float distinction and the
/// value survive a round trip without a float ever entering the
/// library.
#[derive(Clone, Debug, PartialEq)]
pub enum Scalar {
    Integer(i64),
    Float(String),
}

/// A structured value: null, boolean, text, number, ordered sequence, or
/// order-preserving text-keyed map. Map entries keep the order in which
/// their keys were first inserted by the decoder.
#[derive(Debug)]
pub enum Datum {
    Null,
    Boolean(bool),
    Text(String),
    Number(Scalar),
    Array(Vec<Datum>),
    Mapping(Vec<(String, Datum)>),
}

} // verus!
