//! A shard's header: the decoded value of its leading front-matter
//! block, read off the parsed tree before conversion.

use vstd::prelude::*;

use crate::codec::{decode_yaml, yaml_value_of};
use crate::raw::{RawKind, RawNode};
use crate::value::Datum;

verus! {

/// The decoded front-matter value of one shard.
#[derive(Debug)]
pub struct Header(pub Datum);

impl Header {
    /// Read the header off a parsed node: only a YAML front-matter node
    /// that decodes carries one.
    pub fn from_frontmatter(node: Option<&RawNode>) -> (r: Option<Header>)
        ensures
            match node {
                Some(raw) => match raw.kind {
                    RawKind::Yaml(text) => match yaml_value_of(text@) {
                        Some(v) => r matches Some(h) && h.0 == v,
                        None => r is None,
                    },
                    _ => r is None,
                },
                None => r is None,
            },
    {
        match node {
            Some(raw) => match &raw.kind {
                RawKind::Yaml(text) => Header::from_yaml(text.as_str()),
                _ => None,
            },
            None => None,
        }
    }

    /// Decode a YAML header from its text.
    pub fn from_yaml(input: &str) -> (r: Option<Header>)
        ensures
            match yaml_value_of(input@) {
                Some(v) => r matches Some(h) && h.0 == v,
                None => r is None,
            },
    {
        match decode_yaml(input) {
            Some(v) => Some(Header(v)),
            None => None,
        }
    }
}

} // verus!
