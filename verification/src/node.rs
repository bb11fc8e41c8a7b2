//! Syntax-node model: the closed set of node kinds, their per-kind
//! attribute payloads, and source positions.

use vstd::prelude::*;

use crate::value::Datum;

verus! {

/// A position in the source document: line and column (1-based) and
/// byte offset (0-based).
#[derive(Clone, Copy, Debug, PartialEq, Eq, Structural)]
pub struct Location {
    pub line: usize,
    pub column: usize,
    pub offset: usize,
}

/// The source region a node was parsed from.
#[derive(Clone, Copy, Debug, PartialEq, Eq, Structural)]
pub struct Span {
    pub start: Location,
    pub end: Location,
}

/// Explicitness of a link or image reference.
#[derive(Clone, Copy, Debug, PartialEq, Eq, Structural)]
pub enum RefKind {
    Shortcut,
    Collapsed,
    Full,
}

/// Alignment of the phrasing content of one table column.
#[derive(Clone, Copy, Debug, PartialEq, Eq, Structural)]
pub enum CellAlign {
    Left,
    Right,
    Center,
    Unaligned,
}

/// The value of one embedded-markup element attribute.
#[derive(Debug, Clone)]
pub enum MdxAttributeValue {
    Expression(String),
    Literal(String),
}

/// One attribute of an embedded-markup (JSX-style) element.
#[derive(Debug, Clone)]
pub enum MdxAttribute {
    Expression(String),
    Property { name: String, value: Option<MdxAttributeValue> },
}

/// The format a front-matter block was written in, and is re-emitted in.
#[derive(Clone, Copy, Debug, PartialEq, Eq, Structural)]
pub enum FrontMatterFormat {
    Yaml,
    Toml,
}

/// The decoded metadata block of a shard: its source format and its
/// decoded key-value properties, in source order. The library carries
/// only mapping-shaped front matter; a block whose payload decodes to
/// anything else is dropped at conversion.
#[derive(Debug)]
pub struct FrontMatter {
    /// The format to project when the node is serialized.
    pub format: FrontMatterFormat,
    /// The decoded properties of the block.
    pub properties: Vec<(String, Datum)>,
}

#[derive(Debug, Clone)]
pub struct FootnoteDefinition {
    pub identifier: String,
    pub label: Option<String>,
}

#[derive(Debug, Clone)]
pub struct FootnoteReference {
    pub identifier: String,
    pub label: Option<String>,
}

/// Embedded-markup element in flow position, e.g. `<tag />`.
#[derive(Debug, Clone)]
pub struct MdxJsxFlowElement {
    pub name: Option<String>,
    pub attributes: Vec<MdxAttribute>,
}

#[derive(Debug, Clone)]
pub struct MdxFlowExpression {
    pub value: String,
}

#[derive(Debug, Clone)]
pub struct MdxjsEsm {
    pub value: String,
}

/// Embedded-markup element in text position.
#[derive(Debug, Clone)]
pub struct MdxJsxTextElement {
    pub name: Option<String>,
    pub attributes: Vec<MdxAttribute>,
}

#[derive(Debug, Clone)]
pub struct MdxTextExpression {
    pub value: String,
}

#[derive(Debug, Clone)]
pub struct List {
    pub ordered: bool,
    pub start: Option<u32>,
    pub spread: bool,
}

#[derive(Debug, Clone)]
pub struct ListItem {
    pub checked: Option<bool>,
    pub spread: bool,
}

#[derive(Debug, Clone)]
pub struct InlineCode {
    pub value: String,
}

#[derive(Debug, Clone)]
pub struct InlineMath {
    pub value: String,
}

#[derive(Debug, Clone)]
pub struct Image {
    pub alt: String,
    pub url: String,
    pub title: Option<String>,
}

#[derive(Debug, Clone)]
pub struct ImageReference {
    pub alt: String,
    pub identifier: String,
    pub reference_kind: RefKind,
    pub label: Option<String>,
}

#[derive(Debug, Clone)]
pub struct Link {
    pub url: String,
    pub title: Option<String>,
}

#[derive(Debug, Clone)]
pub struct LinkReference {
    pub reference_kind: RefKind,
    pub identifier: String,
    pub label: Option<String>,
}

#[derive(Debug, Clone)]
pub struct Code {
    pub value: String,
    pub lang: Option<String>,
    pub meta: Option<String>,
}

#[derive(Debug, Clone)]
pub struct Math {
    pub value: String,
    pub meta: Option<String>,
}

#[derive(Debug, Clone)]
pub struct Heading {
    pub depth: u8,
}

#[derive(Debug, Clone)]
pub struct Table {
    pub align: Vec<CellAlign>,
}

#[derive(Debug, Clone)]
pub struct Definition {
    pub url: String,
    pub title: Option<String>,
    pub identifier: String,
    pub label: Option<String>,
}

/// The kind of a node, without its payload.
#[derive(Clone, Copy, Debug, PartialEq, Eq, Structural)]
pub enum NodeType {
    Root,
    FrontMatter,
    Definition,
    BlockQuote,
    FootnoteReference,
    FootnoteDefinition,
    List,
    ListItem,
    MdxJsxTextElement,
    MdxFlowExpression,
    MdxJsxFlowElement,
    MdxTextExpression,
    MdxjsEsm,
    Code,
    InlineCode,
    Math,
    InlineMath,
    ThematicBreak,
    Break,
    Heading,
    Delete,
    Emphasis,
    Strong,
    Text,
    Html,
    Image,
    ImageReference,
    Link,
    LinkReference,
    Table,
    TableRow,
    TableCell,
    Paragraph,
}

/// The per-kind payload of a node: a closed, exhaustive sum over every
/// node kind the library models.
#[derive(Debug)]
pub enum NodeAttributes {
    Root,
    BlockQuote,
    FootnoteDefinition(FootnoteDefinition),
    FootnoteReference(FootnoteReference),
    MdxJsxFlowElement(MdxJsxFlowElement),
    MdxFlowExpression(MdxFlowExpression),
    MdxjsEsm(MdxjsEsm),
    MdxJsxTextElement(MdxJsxTextElement),
    MdxTextExpression(MdxTextExpression),
    List(List),
    ListItem(ListItem),
    FrontMatter(FrontMatter),
    Html(String),
    ThematicBreak,
    Break,
    InlineCode(InlineCode),
    InlineMath(InlineMath),
    Text(String),
    Delete,
    Emphasis,
    Strong,
    Image(Image),
    ImageReference(ImageReference),
    Link(Link),
    LinkReference(LinkReference),
    Code(Code),
    Math(Math),
    Heading(Heading),
    Definition(Definition),
    Table(Table),
    TableRow,
    TableCell,
    Paragraph,
}

/// The kind that a payload belongs to.
pub open spec fn node_type_of(attrs: &NodeAttributes) -> NodeType {
    match attrs {
        NodeAttributes::Root => NodeType::Root,
        NodeAttributes::BlockQuote => NodeType::BlockQuote,
        NodeAttributes::FootnoteDefinition(..) => NodeType::FootnoteDefinition,
        NodeAttributes::FootnoteReference(..) => NodeType::FootnoteReference,
        NodeAttributes::MdxJsxFlowElement(..) => NodeType::MdxJsxFlowElement,
        NodeAttributes::MdxFlowExpression(..) => NodeType::MdxFlowExpression,
        NodeAttributes::MdxjsEsm(..) => NodeType::MdxjsEsm,
        NodeAttributes::MdxJsxTextElement(..) => NodeType::MdxJsxTextElement,
        NodeAttributes::MdxTextExpression(..) => NodeType::MdxTextExpression,
        NodeAttributes::List(..) => NodeType::List,
        NodeAttributes::ListItem(..) => NodeType::ListItem,
        NodeAttributes::FrontMatter(..) => NodeType::FrontMatter,
        NodeAttributes::Html(..) => NodeType::Html,
        NodeAttributes::ThematicBreak => NodeType::ThematicBreak,
        NodeAttributes::Break => NodeType::Break,
        NodeAttributes::InlineCode(..) => NodeType::InlineCode,
        NodeAttributes::InlineMath(..) => NodeType::InlineMath,
        NodeAttributes::Text(..) => NodeType::Text,
        NodeAttributes::Delete => NodeType::Delete,
        NodeAttributes::Emphasis => NodeType::Emphasis,
        NodeAttributes::Strong => NodeType::Strong,
        NodeAttributes::Image(..) => NodeType::Image,
        NodeAttributes::ImageReference(..) => NodeType::ImageReference,
        NodeAttributes::Link(..) => NodeType::Link,
        NodeAttributes::LinkReference(..) => NodeType::LinkReference,
        NodeAttributes::Code(..) => NodeType::Code,
        NodeAttributes::Math(..) => NodeType::Math,
        NodeAttributes::Heading(..) => NodeType::Heading,
        NodeAttributes::Definition(..) => NodeType::Definition,
        NodeAttributes::Table(..) => NodeType::Table,
        NodeAttributes::TableRow => NodeType::TableRow,
        NodeAttributes::TableCell => NodeType::TableCell,
        NodeAttributes::Paragraph => NodeType::Paragraph,
    }
}

/// Whether a kind is a leaf: a leaf node carries its own text or value
/// payload and never owns children.
pub open spec fn is_leaf_type(t: NodeType) -> bool {
    match t {
        NodeType::FrontMatter => true,
        NodeType::Definition => true,
        NodeType::FootnoteReference => true,
        NodeType::MdxFlowExpression => true,
        NodeType::MdxTextExpression => true,
        NodeType::MdxjsEsm => true,
        NodeType::Code => true,
        NodeType::InlineCode => true,
        NodeType::Math => true,
        NodeType::InlineMath => true,
        NodeType::ThematicBreak => true,
        NodeType::Break => true,
        NodeType::Text => true,
        NodeType::Html => true,
        NodeType::Image => true,
        NodeType::ImageReference => true,
        _ => false,
    }
}

} // verus!
