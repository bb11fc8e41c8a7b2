//! Conversion of a parsed generic syntax tree into the document graph:
//! one conversion rule per parsed node kind, children inserted before
//! their parent, and a subtree silently dropped where its front-matter
//! payload fails to decode.

use vstd::prelude::*;

use crate::arena::{subtree_at, subtree_list, Ast, AstNode, NodeHandle, Slot, TreeShape};
use crate::codec::{decode_toml, decode_yaml, toml_value_of, yaml_value_of};
use crate::node::{
    is_leaf_type, node_type_of, Code, Definition, FootnoteDefinition, FootnoteReference,
    FrontMatter, FrontMatterFormat, Heading, Image, ImageReference, InlineCode, InlineMath, Link,
    LinkReference, List, ListItem, Math, MdxFlowExpression, MdxJsxFlowElement, MdxJsxTextElement,
    MdxTextExpression, MdxjsEsm, NodeAttributes, NodeType, Table,
};
use crate::raw::{RawKind, RawNode};
use crate::value::Datum;

verus! {

/// The payload a parsed kind converts to, or `None` where the kind is a
/// front-matter block whose text does not decode to a mapping: such a
/// node, and its whole subtree, is dropped. A payload that decodes to a
/// bare scalar or a list counts as no mapping and is dropped the same
/// way — the front matter the library carries is deliberately a
/// key-value list, narrower than an arbitrary structured value.
pub open spec fn conv_attrs(kind: RawKind) -> Option<NodeAttributes> {
    match kind {
        RawKind::Root => Some(NodeAttributes::Root),
        RawKind::BlockQuote => Some(NodeAttributes::BlockQuote),
        RawKind::Paragraph => Some(NodeAttributes::Paragraph),
        RawKind::Emphasis => Some(NodeAttributes::Emphasis),
        RawKind::Strong => Some(NodeAttributes::Strong),
        RawKind::Delete => Some(NodeAttributes::Delete),
        RawKind::TableRow => Some(NodeAttributes::TableRow),
        RawKind::TableCell => Some(NodeAttributes::TableCell),
        RawKind::Break => Some(NodeAttributes::Break),
        RawKind::ThematicBreak => Some(NodeAttributes::ThematicBreak),
        RawKind::Text(s) => Some(NodeAttributes::Text(s)),
        RawKind::Html(s) => Some(NodeAttributes::Html(s)),
        RawKind::InlineCode(s) => Some(NodeAttributes::InlineCode(InlineCode { value: s })),
        RawKind::InlineMath(s) => Some(NodeAttributes::InlineMath(InlineMath { value: s })),
        RawKind::MdxFlowExpression(s) => Some(
            NodeAttributes::MdxFlowExpression(MdxFlowExpression { value: s }),
        ),
        RawKind::MdxTextExpression(s) => Some(
            NodeAttributes::MdxTextExpression(MdxTextExpression { value: s }),
        ),
        RawKind::MdxjsEsm(s) => Some(NodeAttributes::MdxjsEsm(MdxjsEsm { value: s })),
        RawKind::Yaml(text) => match yaml_value_of(text@) {
            Some(Datum::Mapping(properties)) => Some(
                NodeAttributes::FrontMatter(
                    FrontMatter { format: FrontMatterFormat::Yaml, properties },
                ),
            ),
            _ => None,
        },
        RawKind::Toml(text) => match toml_value_of(text@) {
            Some(Datum::Mapping(properties)) => Some(
                NodeAttributes::FrontMatter(
                    FrontMatter { format: FrontMatterFormat::Toml, properties },
                ),
            ),
            _ => None,
        },
        RawKind::Code { value, lang, meta } => Some(
            NodeAttributes::Code(Code { value, lang, meta }),
        ),
        RawKind::Math { value, meta } => Some(NodeAttributes::Math(Math { value, meta })),
        RawKind::Heading { depth } => Some(NodeAttributes::Heading(Heading { depth })),
        RawKind::List { ordered, start, spread } => Some(
            NodeAttributes::List(List { ordered, start, spread }),
        ),
        RawKind::ListItem { checked, spread } => Some(
            NodeAttributes::ListItem(ListItem { checked, spread }),
        ),
        RawKind::Link { url, title } => Some(NodeAttributes::Link(Link { url, title })),
        RawKind::LinkReference { reference_kind, identifier, label } => Some(
            NodeAttributes::LinkReference(LinkReference { reference_kind, identifier, label }),
        ),
        RawKind::Image { alt, url, title } => Some(
            NodeAttributes::Image(Image { alt, url, title }),
        ),
        RawKind::ImageReference { alt, identifier, reference_kind, label } => Some(
            NodeAttributes::ImageReference(
                ImageReference { alt, identifier, reference_kind, label },
            ),
        ),
        RawKind::Definition { url, title, identifier, label } => Some(
            NodeAttributes::Definition(Definition { url, title, identifier, label }),
        ),
        RawKind::FootnoteDefinition { identifier, label } => Some(
            NodeAttributes::FootnoteDefinition(FootnoteDefinition { identifier, label }),
        ),
        RawKind::FootnoteReference { identifier, label } => Some(
            NodeAttributes::FootnoteReference(FootnoteReference { identifier, label }),
        ),
        RawKind::Table { align } => Some(NodeAttributes::Table(Table { align })),
        RawKind::MdxJsxFlowElement { name, attributes } => Some(
            NodeAttributes::MdxJsxFlowElement(MdxJsxFlowElement { name, attributes }),
        ),
        RawKind::MdxJsxTextElement { name, attributes } => Some(
            NodeAttributes::MdxJsxTextElement(MdxJsxTextElement { name, attributes }),
        ),
    }
}

/// The tree a parsed node converts to: its payload, and, unless its
/// kind is a leaf, the converted children in order, each dropped where
/// its own conversion fails.
pub open spec fn converted_tree(raw: RawNode) -> Option<TreeShape>
    decreases raw, 1int,
{
    match conv_attrs(raw.kind) {
        None => None,
        Some(attrs) => Some(
            TreeShape {
                span: raw.span,
                attributes: attrs,
                children: if is_leaf_type(node_type_of(&attrs)) {
                    Seq::empty()
                } else {
                    converted_list(raw.children@)
                },
            },
        ),
    }
}

/// The converted trees of `kids`, in order, without the failed ones.
pub open spec fn converted_list(kids: Seq<RawNode>) -> Seq<TreeShape>
    decreases kids, 0int,
{
    if kids.len() == 0 {
        Seq::empty()
    } else {
        match converted_tree(kids[0]) {
            Some(t) => seq![t] + converted_list(kids.drop_first()),
            None => converted_list(kids.drop_first()),
        }
    }
}

/// Appending one more node to a list converts to appending its
/// converted tree, when it has one.
proof fn lemma_converted_list_snoc(kids: Seq<RawNode>, x: RawNode)
    ensures
        converted_list(kids.push(x)) == converted_list(kids) + (match converted_tree(x) {
            Some(t) => seq![t],
            None => Seq::<TreeShape>::empty(),
        }),
    decreases kids.len(),
{
    if kids.len() == 0 {
        assert(kids.push(x) =~= seq![x]);
        assert(seq![x][0] == x);
        assert(seq![x].drop_first() =~= Seq::<RawNode>::empty());
        assert(converted_list(Seq::<RawNode>::empty()) =~= Seq::<TreeShape>::empty());
        match converted_tree(x) {
            Some(t) => {
                assert(converted_list(seq![x]) == seq![t] + converted_list(
                    seq![x].drop_first(),
                ));
                assert(seq![t] + Seq::<TreeShape>::empty() =~= seq![t]);
                assert(converted_list(kids) + seq![t] =~= seq![t]);
            }
            None => {
                assert(converted_list(seq![x]) == converted_list(seq![x].drop_first()));
                assert(converted_list(kids) + Seq::<TreeShape>::empty() =~= Seq::<
                    TreeShape,
                >::empty());
            }
        }
    } else {
        lemma_converted_list_snoc(kids.drop_first(), x);
        assert(kids.push(x)[0] == kids[0]);
        assert(kids.push(x).drop_first() =~= kids.drop_first().push(x));
        match converted_tree(kids[0]) {
            Some(t) => {
                assert(seq![t] + (converted_list(kids.drop_first()) + (match converted_tree(x) {
                    Some(t2) => seq![t2],
                    None => Seq::<TreeShape>::empty(),
                })) =~= (seq![t] + converted_list(kids.drop_first())) + (match converted_tree(x) {
                    Some(t2) => seq![t2],
                    None => Seq::<TreeShape>::empty(),
                }));
            }
            None => {}
        }
    }
}

/// Appending one more handle to a child list extends the extracted
/// trees by that handle's tree, when it resolves below the bound.
pub proof fn lemma_subtree_list_snoc(slots: Seq<Slot>, kids: Seq<NodeHandle>, bound: int, h: NodeHandle)
    requires
        bound >= 0,
    ensures
        subtree_list(slots, kids.push(h), bound) == subtree_list(slots, kids, bound) + (
        if h.idx < bound {
            match subtree_at(slots, h) {
                Some(t) => seq![t],
                None => Seq::<TreeShape>::empty(),
            }
        } else {
            Seq::<TreeShape>::empty()
        }),
    decreases kids.len(),
{
    let tail = (
    if h.idx < bound {
        match subtree_at(slots, h) {
            Some(t) => seq![t],
            None => Seq::<TreeShape>::empty(),
        }
    } else {
        Seq::<TreeShape>::empty()
    });
    if kids.len() == 0 {
        assert(kids.push(h) =~= seq![h]);
        assert(seq![h][0] == h);
        assert(seq![h].drop_first() =~= Seq::<NodeHandle>::empty());
        assert(subtree_list(slots, Seq::<NodeHandle>::empty(), bound) =~= Seq::<
            TreeShape,
        >::empty());
        if h.idx < bound {
            match subtree_at(slots, h) {
                Some(t) => {
                    assert(subtree_list(slots, seq![h], bound) == seq![t] + subtree_list(
                        slots,
                        seq![h].drop_first(),
                        bound,
                    ));
                    assert(seq![t] + Seq::<TreeShape>::empty() =~= seq![t]);
                }
                None => {}
            }
        }
        assert(subtree_list(slots, kids, bound) + tail =~= tail);
    } else {
        lemma_subtree_list_snoc(slots, kids.drop_first(), bound, h);
        assert(kids.push(h)[0] == kids[0]);
        assert(kids.push(h).drop_first() =~= kids.drop_first().push(h));
        if kids[0].idx < bound {
            match subtree_at(slots, kids[0]) {
                Some(t) => {
                    assert(seq![t] + (subtree_list(slots, kids.drop_first(), bound) + tail) =~= (
                    seq![t] + subtree_list(slots, kids.drop_first(), bound)) + tail);
                }
                None => {}
            }
        }
    }
}

/// Extending the arena beyond a tree's region does not change the tree:
/// extracting at `h` only ever reads slots at or below `h`'s own index.
pub proof fn lemma_subtree_at_frame(slots1: Seq<Slot>, slots2: Seq<Slot>, h: NodeHandle)
    requires
        h.idx < slots1.len(),
        slots1.len() <= slots2.len(),
        forall|i: int| 0 <= i < slots1.len() ==> slots2[i] == slots1[i],
    ensures
        subtree_at(slots2, h) == subtree_at(slots1, h),
    decreases h.idx as int, 1int, 0int,
{
    if slots1[h.idx as int].generation == h.generation && slots1[h.idx as int].node is Some {
        let node = slots1[h.idx as int].node.unwrap();
        lemma_subtree_list_frame(slots1, slots2, node.children@, h.idx as int);
    }
}

/// List form of [`lemma_subtree_at_frame`].
pub proof fn lemma_subtree_list_frame(
    slots1: Seq<Slot>,
    slots2: Seq<Slot>,
    kids: Seq<NodeHandle>,
    bound: int,
)
    requires
        bound <= slots1.len(),
        slots1.len() <= slots2.len(),
        forall|i: int| 0 <= i < slots1.len() ==> slots2[i] == slots1[i],
    ensures
        subtree_list(slots2, kids, bound) == subtree_list(slots1, kids, bound),
    decreases bound, 0int, kids.len(),
{
    if kids.len() == 0 || bound < 0 {
    } else {
        lemma_subtree_list_frame(slots1, slots2, kids.drop_first(), bound);
        if kids[0].idx < bound {
            lemma_subtree_at_frame(slots1, slots2, kids[0]);
        }
    }
}

/// Raising the bound past every handle in the list changes nothing: the
/// bound only filters handles at or above it.
pub proof fn lemma_subtree_list_bound(slots: Seq<Slot>, kids: Seq<NodeHandle>, b1: int, b2: int)
    requires
        0 <= b1 <= b2,
        forall|i: int| 0 <= i < kids.len() ==> (#[trigger] kids[i]).idx < b1,
    ensures
        subtree_list(slots, kids, b2) == subtree_list(slots, kids, b1),
    decreases kids.len(),
{
    if kids.len() == 0 {
    } else {
        assert(kids[0].idx < b1);
        assert(forall|i: int|
            0 <= i < kids.drop_first().len() ==> (#[trigger] kids.drop_first()[i]).idx < b1);
        lemma_subtree_list_bound(slots, kids.drop_first(), b1, b2);
    }
}

/// Whether a kind is a leaf, decided at run time.
fn is_leaf(t: NodeType) -> (r: bool)
    ensures
        r == is_leaf_type(t),
{
    match t {
        NodeType::FrontMatter => true,
        NodeType::Definition => true,
        NodeType::FootnoteReference => true,
        NodeType::MdxFlowExpression => true,
        NodeType::MdxTextExpression => true,
        NodeType::MdxjsEsm => true,
        NodeType::Code => true,
        NodeType::InlineCode => true,
        NodeType::Math => true,
        NodeType::InlineMath => true,
        NodeType::ThematicBreak => true,
        NodeType::Break => true,
        NodeType::Text => true,
        NodeType::Html => true,
        NodeType::Image => true,
        NodeType::ImageReference => true,
        _ => false,
    }
}

/// Convert one parsed kind into its payload, decoding front-matter text
/// through the format adapters and moving every other field over as it
/// stands. Yields `None` exactly where the spec conversion does.
fn convert_attrs(kind: RawKind) -> (r: Option<NodeAttributes>)
    ensures
        r == conv_attrs(kind),
{
    match kind {
        RawKind::Root => Some(NodeAttributes::Root),
        RawKind::BlockQuote => Some(NodeAttributes::BlockQuote),
        RawKind::Paragraph => Some(NodeAttributes::Paragraph),
        RawKind::Emphasis => Some(NodeAttributes::Emphasis),
        RawKind::Strong => Some(NodeAttributes::Strong),
        RawKind::Delete => Some(NodeAttributes::Delete),
        RawKind::TableRow => Some(NodeAttributes::TableRow),
        RawKind::TableCell => Some(NodeAttributes::TableCell),
        RawKind::Break => Some(NodeAttributes::Break),
        RawKind::ThematicBreak => Some(NodeAttributes::ThematicBreak),
        RawKind::Text(s) => Some(NodeAttributes::Text(s)),
        RawKind::Html(s) => Some(NodeAttributes::Html(s)),
        RawKind::InlineCode(s) => Some(NodeAttributes::InlineCode(InlineCode { value: s })),
        RawKind::InlineMath(s) => Some(NodeAttributes::InlineMath(InlineMath { value: s })),
        RawKind::MdxFlowExpression(s) => Some(
            NodeAttributes::MdxFlowExpression(MdxFlowExpression { value: s }),
        ),
        RawKind::MdxTextExpression(s) => Some(
            NodeAttributes::MdxTextExpression(MdxTextExpression { value: s }),
        ),
        RawKind::MdxjsEsm(s) => Some(NodeAttributes::MdxjsEsm(MdxjsEsm { value: s })),
        RawKind::Yaml(text) => match decode_yaml(text.as_str()) {
            Some(Datum::Mapping(properties)) => Some(
                NodeAttributes::FrontMatter(
                    FrontMatter { format: FrontMatterFormat::Yaml, properties },
                ),
            ),
            _ => None,
        },
        RawKind::Toml(text) => match decode_toml(text.as_str()) {
            Some(Datum::Mapping(properties)) => Some(
                NodeAttributes::FrontMatter(
                    FrontMatter { format: FrontMatterFormat::Toml, properties },
                ),
            ),
            _ => None,
        },
        RawKind::Code { value, lang, meta } => Some(
            NodeAttributes::Code(Code { value, lang, meta }),
        ),
        RawKind::Math { value, meta } => Some(NodeAttributes::Math(Math { value, meta })),
        RawKind::Heading { depth } => Some(NodeAttributes::Heading(Heading { depth })),
        RawKind::List { ordered, start, spread } => Some(
            NodeAttributes::List(List { ordered, start, spread }),
        ),
        RawKind::ListItem { checked, spread } => Some(
            NodeAttributes::ListItem(ListItem { checked, spread }),
        ),
        RawKind::Link { url, title } => Some(NodeAttributes::Link(Link { url, title })),
        RawKind::LinkReference { reference_kind, identifier, label } => Some(
            NodeAttributes::LinkReference(LinkReference { reference_kind, identifier, label }),
        ),
        RawKind::Image { alt, url, title } => Some(
            NodeAttributes::Image(Image { alt, url, title }),
        ),
        RawKind::ImageReference { alt, identifier, reference_kind, label } => Some(
            NodeAttributes::ImageReference(
                ImageReference { alt, identifier, reference_kind, label },
            ),
        ),
        RawKind::Definition { url, title, identifier, label } => Some(
            NodeAttributes::Definition(Definition { url, title, identifier, label }),
        ),
        RawKind::FootnoteDefinition { identifier, label } => Some(
            NodeAttributes::FootnoteDefinition(FootnoteDefinition { identifier, label }),
        ),
        RawKind::FootnoteReference { identifier, label } => Some(
            NodeAttributes::FootnoteReference(FootnoteReference { identifier, label }),
        ),
        RawKind::Table { align } => Some(NodeAttributes::Table(Table { align })),
        RawKind::MdxJsxFlowElement { name, attributes } => Some(
            NodeAttributes::MdxJsxFlowElement(MdxJsxFlowElement { name, attributes }),
        ),
        RawKind::MdxJsxTextElement { name, attributes } => Some(
            NodeAttributes::MdxJsxTextElement(MdxJsxTextElement { name, attributes }),
        ),
    }
}

/// Whether converting a parsed node drops nothing: its own kind
/// converts, and, unless the kind is a leaf, every node below it
/// converts too. The strict conversion mode accepts exactly these.
pub open spec fn conversion_clean(raw: RawNode) -> bool
    decreases raw, 1int,
{
    match conv_attrs(raw.kind) {
        None => false,
        Some(attrs) => is_leaf_type(node_type_of(&attrs)) || list_clean(raw.children@),
    }
}

/// Every node of the list converts cleanly.
pub open spec fn list_clean(kids: Seq<RawNode>) -> bool
    decreases kids, 0int,
{
    forall|i: int| 0 <= i < kids.len() ==> conversion_clean(#[trigger] kids[i])
}

/// Whether a parsed kind converts at all: only a front-matter block
/// whose text does not decode to a mapping fails.
fn kind_converts(kind: &RawKind) -> (r: bool)
    ensures
        r == (conv_attrs(*kind) is Some),
{
    match kind {
        RawKind::Yaml(text) => match decode_yaml(text.as_str()) {
            Some(Datum::Mapping(_)) => true,
            _ => false,
        },
        RawKind::Toml(text) => match decode_toml(text.as_str()) {
            Some(Datum::Mapping(_)) => true,
            _ => false,
        },
        _ => true,
    }
}

/// Whether a parsed kind converts to a leaf payload.
fn kind_is_leaf(kind: &RawKind) -> (r: bool)
    ensures
        conv_attrs(*kind) matches Some(a) ==> r == is_leaf_type(node_type_of(&a)),
{
    match kind {
        RawKind::Text(..) => true,
        RawKind::Html(..) => true,
        RawKind::InlineCode(..) => true,
        RawKind::InlineMath(..) => true,
        RawKind::MdxFlowExpression(..) => true,
        RawKind::MdxTextExpression(..) => true,
        RawKind::MdxjsEsm(..) => true,
        RawKind::Yaml(..) => true,
        RawKind::Toml(..) => true,
        RawKind::Code { .. } => true,
        RawKind::Math { .. } => true,
        RawKind::Break => true,
        RawKind::ThematicBreak => true,
        RawKind::Image { .. } => true,
        RawKind::ImageReference { .. } => true,
        RawKind::Definition { .. } => true,
        RawKind::FootnoteReference { .. } => true,
        _ => false,
    }
}

/// Decide at run time whether a parsed node converts without any drop.
#[verifier::loop_isolation(false)]
pub fn conversion_is_clean(raw: &RawNode) -> (r: bool)
    ensures
        r == conversion_clean(*raw),
    decreases *raw,
{
    if !kind_converts(&raw.kind) {
        return false;
    }
    if kind_is_leaf(&raw.kind) {
        return true;
    }
    let n = raw.children.len();
    let mut k: usize = 0;
    while k < n
        invariant
            k <= n,
            n == raw.children@.len(),
            forall|i: int| 0 <= i < k ==> conversion_clean(#[trigger] raw.children@[i]),
        decreases n - k,
    {
        proof {
            broadcast use vstd::seq::axiom_seq_index_decreases;

            assert(decreases_to!(*raw => raw.children));
            assert(decreases_to!(raw.children => raw.children@));
            assert(decreases_to!(raw.children@ => raw.children@[k as int]));
        }
        if !conversion_is_clean(&raw.children[k]) {
            return false;
        }
        k = k + 1;
    }
    true
}

/// The kind of a payload, decided at run time.
fn attrs_type(attrs: &NodeAttributes) -> (t: NodeType)
    ensures
        t == node_type_of(attrs),
{
    match attrs {
        NodeAttributes::Root => NodeType::Root,
        NodeAttributes::BlockQuote => NodeType::BlockQuote,
        NodeAttributes::FootnoteDefinition(..) => NodeType::FootnoteDefinition,
        NodeAttributes::FootnoteReference(..) => NodeType::FootnoteReference,
        NodeAttributes::MdxJsxFlowElement(..) => NodeType::MdxJsxFlowElement,
        NodeAttributes::MdxFlowExpression(..) => NodeType::MdxFlowExpression,
        NodeAttributes::MdxjsEsm(..) => NodeType::MdxjsEsm,
        NodeAttributes::MdxJsxTextElement(..) => NodeType::MdxJsxTextElement,
        NodeAttributes::MdxTextExpression(..) => NodeType::MdxTextExpression,
        NodeAttributes::List(..) => NodeType::List,
        NodeAttributes::ListItem(..) => NodeType::ListItem,
        NodeAttributes::FrontMatter(..) => NodeType::FrontMatter,
        NodeAttributes::Html(..) => NodeType::Html,
        NodeAttributes::ThematicBreak => NodeType::ThematicBreak,
        NodeAttributes::Break => NodeType::Break,
        NodeAttributes::InlineCode(..) => NodeType::InlineCode,
        NodeAttributes::InlineMath(..) => NodeType::InlineMath,
        NodeAttributes::Text(..) => NodeType::Text,
        NodeAttributes::Delete => NodeType::Delete,
        NodeAttributes::Emphasis => NodeType::Emphasis,
        NodeAttributes::Strong => NodeType::Strong,
        NodeAttributes::Image(..) => NodeType::Image,
        NodeAttributes::ImageReference(..) => NodeType::ImageReference,
        NodeAttributes::Link(..) => NodeType::Link,
        NodeAttributes::LinkReference(..) => NodeType::LinkReference,
        NodeAttributes::Code(..) => NodeType::Code,
        NodeAttributes::Math(..) => NodeType::Math,
        NodeAttributes::Heading(..) => NodeType::Heading,
        NodeAttributes::Definition(..) => NodeType::Definition,
        NodeAttributes::Table(..) => NodeType::Table,
        NodeAttributes::TableRow => NodeType::TableRow,
        NodeAttributes::TableCell => NodeType::TableCell,
        NodeAttributes::Paragraph => NodeType::Paragraph,
    }
}

impl Ast {
    /// Convert one parsed node, post-order: children first, so every
    /// child handle resolves before its parent is inserted. Existing
    /// nodes and the root are untouched; the result is the handle of the
    /// inserted tree, or `None` where the node's conversion fails.
    #[verifier::loop_isolation(false)]
    pub fn convert(&mut self, raw: RawNode) -> (r: Option<NodeHandle>)
        requires
            old(self).wf(),
        ensures
            final(self).wf(),
            final(self).root == old(self).root,
            old(self).slots@.len() <= final(self).slots@.len(),
            forall|i: int|
                0 <= i < old(self).slots@.len() ==> final(self).slots@[i] == old(self).slots@[i],
            match r {
                Some(h) => converted_tree(raw) is Some && final(self).valid_handle(h)
                    && old(self).slots@.len() <= h.idx && subtree_at(final(self).slots@, h)
                    == converted_tree(raw) && (forall|i: int|
                    0 <= i < final(self).node_at(h).children@.len() ==> final(self).valid_handle(
                        #[trigger] final(self).node_at(h).children@[i],
                    )),
                None => converted_tree(raw) is None && final(self).slots@ == old(self).slots@,
            },
        decreases raw,
    {
        let ghost g_raw = raw;
        let RawNode { kind, children, span } = raw;
        let mut children = children;
        let attrs = match convert_attrs(kind) {
            Some(a) => a,
            None => {
                return None;
            }
        };
        let ghost g_attrs = attrs;
        let leaf = is_leaf(attrs_type(&attrs));
        let mut hs: Vec<NodeHandle> = Vec::new();
        if !leaf {
            let ghost g_children = g_raw.children@;
            let child_total = children.len();
            proof {
                assert(g_children.len() == child_total);
            }
            let mut k: usize = 0;
            proof {
                assert(children@ =~= g_children.skip(0));
                assert(subtree_list(self.slots@, hs@, self.slots@.len() as int) =~= Seq::<
                    TreeShape,
                >::empty());
                assert(converted_list(g_children.take(0)) =~= Seq::<TreeShape>::empty());
            }
            while children.len() > 0
                invariant
                    g_children == g_raw.children@,
                    g_children.len() <= usize::MAX,
                    k + children@.len() == g_children.len(),
                    children@ == g_children.skip(k as int),
                    self.wf(),
                    self.root == old(self).root,
                    old(self).slots@.len() <= self.slots@.len(),
                    forall|i: int|
                        0 <= i < old(self).slots@.len() ==> self.slots@[i] == old(self).slots@[i],
                    forall|j: int|
                        0 <= j < hs@.len() ==> self.valid_handle(#[trigger] hs@[j])
                            && hs@[j].idx < self.slots@.len(),
                    subtree_list(self.slots@, hs@, self.slots@.len() as int) == converted_list(
                        g_children.take(k as int),
                    ),
                decreases children@.len(),
            {
                let child = children.remove(0);
                proof {
                    broadcast use vstd::seq::axiom_seq_index_decreases;

                    assert(child == g_children[k as int]);
                    assert(children@ =~= g_children.skip(k as int + 1));
                    assert(decreases_to!(g_raw => g_raw.children));
                    assert(decreases_to!(g_raw.children => g_raw.children@));
                    assert(0 <= k < g_raw.children@.len());
                    assert(decreases_to!(g_raw.children@ => g_raw.children@[k as int]));
                    assert(decreases_to!(g_raw => child));
                }
                let ghost pre = self.slots@;
                let ghost pre_hs = hs@;
                let child_r = self.convert(child);
                proof {
                    lemma_subtree_list_frame(pre, self.slots@, pre_hs, pre.len() as int);
                    lemma_subtree_list_bound(
                        self.slots@,
                        pre_hs,
                        pre.len() as int,
                        self.slots@.len() as int,
                    );
                    lemma_converted_list_snoc(g_children.take(k as int), g_children[k as int]);
                    assert(g_children.take(k as int + 1) =~= g_children.take(k as int).push(
                        g_children[k as int],
                    ));
                }
                match child_r {
                    Some(h) => {
                        proof {
                            lemma_subtree_list_snoc(
                                self.slots@,
                                pre_hs,
                                self.slots@.len() as int,
                                h,
                            );
                        }
                        hs.push(h);
                        proof {
                            assert(hs@ =~= pre_hs.push(h));
                        }
                    }
                    None => {}
                }
                k = k + 1;
            }
            proof {
                assert(g_children.take(k as int) =~= g_children);
            }
        }
        let ghost pre_insert = self.slots@;
        let ghost hs_snapshot = hs@;
        let node = AstNode { span, children: hs, attributes: attrs };
        let ghost g_node = node;
        let h = self.insert_node(node);
        proof {
            assert(self.slots@[h.idx as int].node == Some(g_node));
            assert(g_node.children@ == hs_snapshot);
            assert(g_node.attributes == g_attrs);
            lemma_subtree_list_frame(pre_insert, self.slots@, hs_snapshot, pre_insert.len() as int);
            assert(conv_attrs(g_raw.kind) == Some(g_attrs));
            if is_leaf_type(node_type_of(&g_attrs)) {
                assert(hs_snapshot.len() == 0);
                assert(subtree_list(self.slots@, hs_snapshot, h.idx as int) =~= Seq::<
                    TreeShape,
                >::empty());
            } else {
                assert(subtree_list(pre_insert, hs_snapshot, pre_insert.len() as int)
                    == converted_list(g_raw.children@));
            }
            assert(subtree_at(self.slots@, h) == Some(
                TreeShape {
                    span: g_node.span,
                    attributes: g_node.attributes,
                    children: subtree_list(self.slots@, g_node.children@, h.idx as int),
                },
            ));
            assert(subtree_at(self.slots@, h) == converted_tree(g_raw));
        }
        Some(h)
    }

    /// Convert like [`Ast::convert`], but strict: where the lenient
    /// conversion would silently drop any node, nothing is inserted and
    /// the whole conversion fails instead.
    pub fn convert_strict(&mut self, raw: RawNode) -> (r: Option<NodeHandle>)
        requires
            old(self).wf(),
        ensures
            final(self).wf(),
            final(self).root == old(self).root,
            old(self).slots@.len() <= final(self).slots@.len(),
            forall|i: int|
                0 <= i < old(self).slots@.len() ==> final(self).slots@[i] == old(self).slots@[i],
            match r {
                Some(h) => conversion_clean(raw) && converted_tree(raw) is Some
                    && final(self).valid_handle(h)
                    && subtree_at(final(self).slots@, h) == converted_tree(raw),
                None => !conversion_clean(raw) && final(self).slots@ == old(self).slots@,
            },
    {
        if conversion_is_clean(&raw) {
            proof {
                assert(converted_tree(raw) is Some);
            }
            self.convert(raw)
        } else {
            None
        }
    }

    /// Build one document's graph from its parsed tree: the graph holds
    /// exactly the converted tree, and its root points at it. A tree
    /// whose own conversion fails gives a graph without a root.
    pub fn from_raw(raw: RawNode) -> (r: Ast)
        ensures
            r.wf(),
            match r.root {
                Some(h) => converted_tree(raw) is Some && r.valid_handle(h) && subtree_at(
                    r.slots@,
                    h,
                ) == converted_tree(raw),
                None => converted_tree(raw) is None,
            },
    {
        let mut ast = Ast::new();
        let root = ast.convert(raw);
        ast.root = root;
        ast
    }

    /// Build one document's graph from its text: the text is parsed by
    /// the external parser, and the parsed tree is converted. Yields
    /// `None` exactly where the parser rejects the text.
    pub fn from_str(input: &str) -> (r: Option<Ast>)
        ensures
            match r {
                Some(ast) => crate::parse::parsed_doc_of(input@) is Some && ast.wf() && (
                match ast.root {
                    Some(h) => converted_tree(crate::parse::parsed_doc_of(input@).unwrap())
                        is Some && ast.valid_handle(h) && subtree_at(ast.slots@, h)
                        == converted_tree(crate::parse::parsed_doc_of(input@).unwrap()),
                    None => converted_tree(crate::parse::parsed_doc_of(input@).unwrap()) is None,
                }),
                None => crate::parse::parsed_doc_of(input@) is None,
            },
    {
        match crate::parse::parse_markdown(input) {
            Some(raw) => Some(Ast::from_raw(raw)),
            None => None,
        }
    }

    /// Build one document's graph from its text, strictly: where the
    /// lenient conversion would silently drop any node, the whole
    /// document is rejected instead.
    pub fn from_str_strict(input: &str) -> (r: Option<Ast>)
        ensures
            match r {
                Some(ast) => crate::parse::parsed_doc_of(input@) matches Some(raw)
                    && conversion_clean(raw) && ast.wf() && ast.root is Some && (
                match ast.root {
                    Some(h) => ast.valid_handle(h) && subtree_at(ast.slots@, h) == converted_tree(
                        crate::parse::parsed_doc_of(input@).unwrap(),
                    ),
                    None => false,
                }),
                None => match crate::parse::parsed_doc_of(input@) {
                    Some(raw) => !conversion_clean(raw),
                    None => true,
                },
            },
    {
        let raw = match crate::parse::parse_markdown(input) {
            Some(raw) => raw,
            None => {
                return None;
            }
        };
        let mut ast = Ast::new();
        match ast.convert_strict(raw) {
            Some(h) => {
                ast.root = Some(h);
                Some(ast)
            }
            None => None,
        }
    }
}

} // verus!
