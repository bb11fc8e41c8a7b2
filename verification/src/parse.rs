//! The boundary with the external CommonMark-family parser: one call
//! that turns document text into a generic syntax tree, brought over
//! into the library's plain tree type one node kind at a time.

use vstd::prelude::*;

use crate::node::{CellAlign, Location, MdxAttribute, MdxAttributeValue, RefKind, Span};
use crate::raw::{RawKind, RawNode};

use markdown::mdast::Node as MdNode;

verus! {

/// The parsed tree of a document text, or `None` where the parser
/// rejects the text. The parser runs with GFM constructs plus a leading
/// front-matter block enabled, so the result is a function of the text
/// alone.
pub uninterp spec fn parsed_doc_of(s: Seq<char>) -> Option<RawNode>;

#[verifier::external_type_specification]
#[verifier::external_body]
pub struct ExMdastNode(markdown::mdast::Node);

#[verifier::external_type_specification]
#[verifier::external_body]
pub struct ExUnistPosition(markdown::unist::Position);

#[verifier::external_type_specification]
#[verifier::external_body]
pub struct ExAttributeContent(markdown::mdast::AttributeContent);

#[verifier::external_type_specification]
#[verifier::external_body]
pub struct ExAlignKind(markdown::mdast::AlignKind);

#[verifier::external_type_specification]
#[verifier::external_body]
pub struct ExReferenceKind(markdown::mdast::ReferenceKind);

/// Relies on markdown::to_mdast, configured with GFM constructs and a
/// leading YAML/TOML front-matter block: parsing is a pure function of
/// the text, and rejected text gives an error.
#[verifier::external_body]
pub fn parse_markdown(text: &str) -> (r: Option<RawNode>)
    ensures
        r == parsed_doc_of(text@),
{
    let constructs = markdown::Constructs { frontmatter: true, ..markdown::Constructs::gfm() };
    let options = markdown::ParseOptions { constructs, ..markdown::ParseOptions::default() };
    match markdown::to_mdast(text, &options) {
        Ok(tree) => Some(raw_of(tree)),
        Err(_) => None,
    }
}

/// Conversion helper for [`parse_markdown`]: a parsed parent node,
/// children brought over in order.
#[verifier::external_body]
fn raw(kind: RawKind, children: Vec<MdNode>, position: Option<markdown::unist::Position>) -> RawNode {
    RawNode { kind, children: raw_kids(children), span: span_of(position) }
}

/// Conversion helper for [`parse_markdown`]: a parsed node carrying no
/// children of its own.
#[verifier::external_body]
fn leaf(kind: RawKind, position: Option<markdown::unist::Position>) -> RawNode {
    RawNode { kind, children: Vec::new(), span: span_of(position) }
}

/// Conversion helper for [`parse_markdown`]: children in source order.
#[verifier::external_body]
fn raw_kids(children: Vec<MdNode>) -> Vec<RawNode> {
    children.into_iter().map(raw_of).collect()
}

/// Conversion helper for [`parse_markdown`]: source position fields,
/// moved one for one.
#[verifier::external_body]
fn span_of(position: Option<markdown::unist::Position>) -> Option<Span> {
    position.map(|p| Span {
        start: Location { line: p.start.line, column: p.start.column, offset: p.start.offset },
        end: Location { line: p.end.line, column: p.end.column, offset: p.end.offset },
    })
}

/// Conversion helper for [`parse_markdown`]: reference explicitness,
/// one arm per variant.
#[verifier::external_body]
fn ref_kind_of(k: markdown::mdast::ReferenceKind) -> RefKind {
    match k {
        markdown::mdast::ReferenceKind::Shortcut => RefKind::Shortcut,
        markdown::mdast::ReferenceKind::Collapsed => RefKind::Collapsed,
        markdown::mdast::ReferenceKind::Full => RefKind::Full,
    }
}

/// Conversion helper for [`parse_markdown`]: table column alignments,
/// one arm per variant.
#[verifier::external_body]
fn align_of(v: Vec<markdown::mdast::AlignKind>) -> Vec<CellAlign> {
    v.into_iter()
        .map(|a| match a {
            markdown::mdast::AlignKind::Left => CellAlign::Left,
            markdown::mdast::AlignKind::Right => CellAlign::Right,
            markdown::mdast::AlignKind::Center => CellAlign::Center,
            markdown::mdast::AlignKind::None => CellAlign::Unaligned,
        })
        .collect()
}

/// Conversion helper for [`parse_markdown`]: one embedded-markup
/// attribute, one arm per variant, fields moved.
#[verifier::external_body]
fn attr_of(a: markdown::mdast::AttributeContent) -> MdxAttribute {
    match a {
        markdown::mdast::AttributeContent::Expression(e) => MdxAttribute::Expression(e.value),
        markdown::mdast::AttributeContent::Property(p) => MdxAttribute::Property {
            name: p.name,
            value: p.value.map(|v| match v {
                markdown::mdast::AttributeValue::Expression(e) => MdxAttributeValue::Expression(e.value),
                markdown::mdast::AttributeValue::Literal(s) => MdxAttributeValue::Literal(s),
            }),
        },
    }
}

/// Conversion helper for [`parse_markdown`]: embedded-markup attributes
/// in order.
#[verifier::external_body]
fn attrs_of(v: Vec<markdown::mdast::AttributeContent>) -> Vec<MdxAttribute> {
    v.into_iter().map(attr_of).collect()
}

/// Conversion dispatch for [`parse_markdown`], container kinds: one arm
/// per parsed kind, fields moved one for one.
#[verifier::external_body]
fn raw_of(n: MdNode) -> RawNode {
    match n {
        MdNode::Root(x) => raw(RawKind::Root, x.children, x.position),
        MdNode::Blockquote(x) => raw(RawKind::BlockQuote, x.children, x.position),
        MdNode::Paragraph(x) => raw(RawKind::Paragraph, x.children, x.position),
        MdNode::Emphasis(x) => raw(RawKind::Emphasis, x.children, x.position),
        MdNode::Strong(x) => raw(RawKind::Strong, x.children, x.position),
        MdNode::Delete(x) => raw(RawKind::Delete, x.children, x.position),
        other => raw_of_b(other),
    }
}

/// Conversion dispatch, list and table containers.
#[verifier::external_body]
fn raw_of_b(n: MdNode) -> RawNode {
    match n {
        MdNode::TableRow(x) => raw(RawKind::TableRow, x.children, x.position),
        MdNode::TableCell(x) => raw(RawKind::TableCell, x.children, x.position),
        MdNode::Heading(x) => raw(RawKind::Heading { depth: x.depth }, x.children, x.position),
        MdNode::ListItem(x) => raw(RawKind::ListItem { checked: x.checked, spread: x.spread }, x.children, x.position),
        MdNode::List(x) => raw(RawKind::List { ordered: x.ordered, start: x.start, spread: x.spread }, x.children, x.position),
        other => raw_of_c(other),
    }
}

/// Conversion dispatch, text-valued leaves.
#[verifier::external_body]
fn raw_of_c(n: MdNode) -> RawNode {
    match n {
        MdNode::Text(x) => leaf(RawKind::Text(x.value), x.position),
        MdNode::Html(x) => leaf(RawKind::Html(x.value), x.position),
        MdNode::InlineCode(x) => leaf(RawKind::InlineCode(x.value), x.position),
        MdNode::InlineMath(x) => leaf(RawKind::InlineMath(x.value), x.position),
        MdNode::MdxFlowExpression(x) => leaf(RawKind::MdxFlowExpression(x.value), x.position),
        MdNode::MdxTextExpression(x) => leaf(RawKind::MdxTextExpression(x.value), x.position),
        MdNode::MdxjsEsm(x) => leaf(RawKind::MdxjsEsm(x.value), x.position),
        other => raw_of_d(other),
    }
}

/// Conversion dispatch, front-matter and fenced leaves.
#[verifier::external_body]
fn raw_of_d(n: MdNode) -> RawNode {
    match n {
        MdNode::Yaml(x) => leaf(RawKind::Yaml(x.value), x.position),
        MdNode::Toml(x) => leaf(RawKind::Toml(x.value), x.position),
        MdNode::Code(x) => leaf(RawKind::Code { value: x.value, lang: x.lang, meta: x.meta }, x.position),
        MdNode::Math(x) => leaf(RawKind::Math { value: x.value, meta: x.meta }, x.position),
        MdNode::Break(x) => leaf(RawKind::Break, x.position),
        MdNode::ThematicBreak(x) => leaf(RawKind::ThematicBreak, x.position),
        other => raw_of_e(other),
    }
}

/// Conversion dispatch, reference and image leaves.
#[verifier::external_body]
fn raw_of_e(n: MdNode) -> RawNode {
    match n {
        MdNode::Image(x) => leaf(RawKind::Image { alt: x.alt, url: x.url, title: x.title }, x.position),
        MdNode::ImageReference(x) => leaf(RawKind::ImageReference { alt: x.alt, identifier: x.identifier, reference_kind: ref_kind_of(x.reference_kind), label: x.label }, x.position),
        MdNode::Definition(x) => leaf(RawKind::Definition { url: x.url, title: x.title, identifier: x.identifier, label: x.label }, x.position),
        MdNode::FootnoteReference(x) => leaf(RawKind::FootnoteReference { identifier: x.identifier, label: x.label }, x.position),
        other => raw_of_f(other),
    }
}

/// Conversion dispatch, footnote and link containers.
#[verifier::external_body]
fn raw_of_f(n: MdNode) -> RawNode {
    match n {
        MdNode::FootnoteDefinition(x) => raw(RawKind::FootnoteDefinition { identifier: x.identifier, label: x.label }, x.children, x.position),
        MdNode::Link(x) => raw(RawKind::Link { url: x.url, title: x.title }, x.children, x.position),
        MdNode::LinkReference(x) => raw(RawKind::LinkReference { reference_kind: ref_kind_of(x.reference_kind), identifier: x.identifier, label: x.label }, x.children, x.position),
        other => raw_of_g(other),
    }
}

/// Conversion dispatch, table and embedded-markup containers.
#[verifier::external_body]
fn raw_of_g(n: MdNode) -> RawNode {
    match n {
        MdNode::Table(x) => raw(RawKind::Table { align: align_of(x.align) }, x.children, x.position),
        MdNode::MdxJsxFlowElement(x) => raw(RawKind::MdxJsxFlowElement { name: x.name, attributes: attrs_of(x.attributes) }, x.children, x.position),
        MdNode::MdxJsxTextElement(x) => raw(RawKind::MdxJsxTextElement { name: x.name, attributes: attrs_of(x.attributes) }, x.children, x.position),
        // every other kind was taken by an earlier dispatch arm
        other => leaf(RawKind::Break, other.position().cloned()),
    }
}

} // verus!
