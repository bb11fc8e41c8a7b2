//! The generic syntax tree an external parser produces, held as plain
//! owned values so the conversion into a document graph can be reasoned
//! about node by node. Front-matter blocks still carry their raw text
//! here; decoding happens during conversion.

use vstd::prelude::*;

use crate::node::{CellAlign, MdxAttribute, RefKind, Span};

verus! {

/// The kind of one parsed node, with its per-kind payload. Yaml and
/// Toml carry the undecoded front-matter text.
#[derive(Debug)]
pub enum RawKind {
    Root,
    BlockQuote,
    Paragraph,
    Emphasis,
    Strong,
    Delete,
    TableRow,
    TableCell,
    Break,
    ThematicBreak,
    Text(String),
    Html(String),
    InlineCode(String),
    InlineMath(String),
    MdxFlowExpression(String),
    MdxTextExpression(String),
    MdxjsEsm(String),
    Yaml(String),
    Toml(String),
    Code { value: String, lang: Option<String>, meta: Option<String> },
    Math { value: String, meta: Option<String> },
    Heading { depth: u8 },
    List { ordered: bool, start: Option<u32>, spread: bool },
    ListItem { checked: Option<bool>, spread: bool },
    Link { url: String, title: Option<String> },
    LinkReference { reference_kind: RefKind, identifier: String, label: Option<String> },
    Image { alt: String, url: String, title: Option<String> },
    ImageReference {
        alt: String,
        identifier: String,
        reference_kind: RefKind,
        label: Option<String>,
    },
    Definition { url: String, title: Option<String>, identifier: String, label: Option<String> },
    FootnoteDefinition { identifier: String, label: Option<String> },
    FootnoteReference { identifier: String, label: Option<String> },
    Table { align: Vec<CellAlign> },
    MdxJsxFlowElement { name: Option<String>, attributes: Vec<MdxAttribute> },
    MdxJsxTextElement { name: Option<String>, attributes: Vec<MdxAttribute> },
}

/// One parsed node: its kind and payload, its parsed children in source
/// order, and its source span if the parser recorded one.
#[derive(Debug)]
pub struct RawNode {
    pub kind: RawKind,
    pub children: Vec<RawNode>,
    pub span: Option<Span>,
}

} // verus!
