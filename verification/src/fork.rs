//! Forking: deep-copying a subtree of one document graph into a fresh
//! graph, children first, without touching the source. The copy denotes
//! the same tree: same shape, same kinds, and payloads that agree value
//! by value — stated as an equivalence because a copied list is a new
//! allocation even when it holds the same values.

use vstd::prelude::*;

use crate::arena::{subtree_at, subtree_list, Ast, AstNode, NodeHandle, TreeShape};
use crate::convert::{
    lemma_subtree_list_bound, lemma_subtree_list_frame, lemma_subtree_list_snoc,
};
use crate::node::{
    Code, Definition, FootnoteDefinition, FootnoteReference, FrontMatter, Heading, Image,
    ImageReference, InlineCode, InlineMath, Link, LinkReference, List, ListItem, Math,
    MdxAttribute, MdxAttributeValue, MdxFlowExpression, MdxJsxFlowElement, MdxJsxTextElement,
    MdxTextExpression, MdxjsEsm, NodeAttributes, Table,
};
use crate::value::Datum;

verus! {

/// Two structured values agree: equal scalars, and sequences and
/// mappings of agreeing values in the same order.
pub open spec fn datum_equiv(a: Datum, b: Datum) -> bool
    decreases a,
{
    match (a, b) {
        (Datum::Array(x), Datum::Array(y)) => x@.len() == y@.len() && (forall|i: int|
            0 <= i < x@.len() ==> datum_equiv(#[trigger] x@[i], y@[i])),
        (Datum::Mapping(x), Datum::Mapping(y)) => x@.len() == y@.len() && (forall|i: int|
            0 <= i < x@.len() ==> (#[trigger] x@[i]).0 == y@[i].0 && datum_equiv(x@[i].1, y@[i].1)),
        _ => a == b,
    }
}

/// Two property lists agree: same keys in the same order, with agreeing
/// values.
pub open spec fn properties_equiv(a: Seq<(String, Datum)>, b: Seq<(String, Datum)>) -> bool {
    a.len() == b.len() && (forall|i: int|
        0 <= i < a.len() ==> (#[trigger] a[i]).0 == b[i].0 && datum_equiv(a[i].1, b[i].1))
}

/// Two payloads agree: equal, except that list-carrying payloads are
/// compared by their contents.
pub open spec fn attrs_equiv(a: NodeAttributes, b: NodeAttributes) -> bool {
    match (a, b) {
        (NodeAttributes::FrontMatter(f1), NodeAttributes::FrontMatter(f2)) => f1.format
            == f2.format && properties_equiv(f1.properties@, f2.properties@),
        (NodeAttributes::Table(t1), NodeAttributes::Table(t2)) => t1.align@ == t2.align@,
        (NodeAttributes::MdxJsxFlowElement(e1), NodeAttributes::MdxJsxFlowElement(e2)) => e1.name
            == e2.name && e1.attributes@ == e2.attributes@,
        (NodeAttributes::MdxJsxTextElement(e1), NodeAttributes::MdxJsxTextElement(e2)) => e1.name
            == e2.name && e1.attributes@ == e2.attributes@,
        _ => a == b,
    }
}

/// Two extracted trees agree: same spans, agreeing payloads, and
/// agreeing children in the same order.
pub open spec fn tree_equiv(a: TreeShape, b: TreeShape) -> bool
    decreases a,
{
    &&& a.span == b.span
    &&& attrs_equiv(a.attributes, b.attributes)
    &&& a.children.len() == b.children.len()
    &&& forall|i: int|
        0 <= i < a.children.len() ==> tree_equiv(#[trigger] a.children[i], b.children[i])
}

/// List form of [`tree_equiv`].
pub open spec fn trees_equiv(a: Seq<TreeShape>, b: Seq<TreeShape>) -> bool {
    a.len() == b.len() && (forall|i: int| 0 <= i < a.len() ==> tree_equiv(#[trigger] a[i], b[i]))
}

/// Duplicate one structured value; the copy agrees with the original.
#[verifier::loop_isolation(false)]
fn dup_datum(d: &Datum) -> (r: Datum)
    ensures
        datum_equiv(r, *d),
    decreases *d,
{
    match d {
        Datum::Null => Datum::Null,
        Datum::Boolean(b) => Datum::Boolean(*b),
        Datum::Text(s) => Datum::Text(s.clone()),
        Datum::Number(n) => Datum::Number(
            match n {
                crate::value::Scalar::Integer(i) => crate::value::Scalar::Integer(*i),
                crate::value::Scalar::Float(f) => crate::value::Scalar::Float(f.clone()),
            },
        ),
        Datum::Array(items) => {
            let mut out: Vec<Datum> = Vec::new();
            let n = items.len();
            let mut k: usize = 0;
            while k < n
                invariant
                    k <= n,
                    n == items@.len(),
                    out@.len() == k,
                    forall|i: int| 0 <= i < k ==> datum_equiv(#[trigger] out@[i], items@[i]),
                decreases n - k,
            {
                proof {
                    broadcast use vstd::seq::axiom_seq_index_decreases;

                    assert(decreases_to!(*d => d->Array_0));
                    assert(decreases_to!(d->Array_0 => d->Array_0@));
                    assert(decreases_to!(d->Array_0@ => d->Array_0@[k as int]));
                }
                let piece = dup_datum(&items[k]);
                out.push(piece);
                k = k + 1;
            }
            Datum::Array(out)
        }
        Datum::Mapping(entries) => {
            let mut out: Vec<(String, Datum)> = Vec::new();
            let n = entries.len();
            let mut k: usize = 0;
            while k < n
                invariant
                    k <= n,
                    n == entries@.len(),
                    out@.len() == k,
                    forall|i: int|
                        0 <= i < k ==> (#[trigger] out@[i]).0 == entries@[i].0 && datum_equiv(
                            out@[i].1,
                            entries@[i].1,
                        ),
                decreases n - k,
            {
                let entry = &entries[k];
                proof {
                    broadcast use vstd::seq::axiom_seq_index_decreases;

                    assert(decreases_to!(*d => d->Mapping_0));
                    assert(decreases_to!(d->Mapping_0 => d->Mapping_0@));
                    assert(decreases_to!(d->Mapping_0@ => d->Mapping_0@[k as int]));
                    assert(decreases_to!(d->Mapping_0@[k as int] => d->Mapping_0@[k as int].1));
                }
                let piece = dup_datum(&entry.1);
                out.push((entry.0.clone(), piece));
                k = k + 1;
            }
            Datum::Mapping(out)
        }
    }
}

/// Duplicate a property list; the copy agrees with the original.
fn dup_properties(props: &Vec<(String, Datum)>) -> (r: Vec<(String, Datum)>)
    ensures
        properties_equiv(r@, props@),
{
    let mut out: Vec<(String, Datum)> = Vec::new();
    let n = props.len();
    let mut k: usize = 0;
    while k < n
        invariant
            k <= n,
            n == props@.len(),
            out@.len() == k,
            forall|i: int|
                0 <= i < k ==> (#[trigger] out@[i]).0 == props@[i].0 && datum_equiv(
                    out@[i].1,
                    props@[i].1,
                ),
        decreases n - k,
    {
        let entry = &props[k];
        let piece = dup_datum(&entry.1);
        out.push((entry.0.clone(), piece));
        k = k + 1;
    }
    out
}

/// Duplicate an optional text.
fn dup_text_opt(o: &Option<String>) -> (r: Option<String>)
    ensures
        r == *o,
{
    match o {
        Some(s) => Some(s.clone()),
        None => None,
    }
}

/// Duplicate an embedded-markup attribute list, value for value.
fn dup_mdx_attrs(v: &Vec<MdxAttribute>) -> (r: Vec<MdxAttribute>)
    ensures
        r@ == v@,
{
    let mut out: Vec<MdxAttribute> = Vec::new();
    let n = v.len();
    let mut k: usize = 0;
    while k < n
        invariant
            k <= n,
            n == v@.len(),
            out@ == v@.take(k as int),
        decreases n - k,
    {
        let piece = match &v[k] {
            MdxAttribute::Expression(s) => MdxAttribute::Expression(s.clone()),
            MdxAttribute::Property { name, value } => MdxAttribute::Property {
                name: name.clone(),
                value: match value {
                    Some(MdxAttributeValue::Expression(s)) => Some(
                        MdxAttributeValue::Expression(s.clone()),
                    ),
                    Some(MdxAttributeValue::Literal(s)) => Some(
                        MdxAttributeValue::Literal(s.clone()),
                    ),
                    None => None,
                },
            },
        };
        proof {
            assert(piece == v@[k as int]);
        }
        out.push(piece);
        proof {
            assert(out@ =~= v@.take(k + 1));
        }
        k = k + 1;
    }
    proof {
        assert(v@.take(n as int) =~= v@);
    }
    out
}

/// Duplicate a column-alignment list, value for value.
fn dup_align(v: &Vec<crate::node::CellAlign>) -> (r: Vec<crate::node::CellAlign>)
    ensures
        r@ == v@,
{
    let mut out: Vec<crate::node::CellAlign> = Vec::new();
    let n = v.len();
    let mut k: usize = 0;
    while k < n
        invariant
            k <= n,
            n == v@.len(),
            out@ == v@.take(k as int),
        decreases n - k,
    {
        out.push(v[k]);
        proof {
            assert(out@ =~= v@.take(k + 1));
        }
        k = k + 1;
    }
    proof {
        assert(v@.take(n as int) =~= v@);
    }
    out
}

/// Duplicate one payload; the copy agrees with the original.
fn dup_attrs(a: &NodeAttributes) -> (r: NodeAttributes)
    ensures
        attrs_equiv(r, *a),
{
    match a {
        NodeAttributes::Root => NodeAttributes::Root,
        NodeAttributes::BlockQuote => NodeAttributes::BlockQuote,
        NodeAttributes::FootnoteDefinition(x) => NodeAttributes::FootnoteDefinition(
            FootnoteDefinition { identifier: x.identifier.clone(), label: dup_text_opt(&x.label) },
        ),
        NodeAttributes::FootnoteReference(x) => NodeAttributes::FootnoteReference(
            FootnoteReference { identifier: x.identifier.clone(), label: dup_text_opt(&x.label) },
        ),
        NodeAttributes::MdxJsxFlowElement(x) => NodeAttributes::MdxJsxFlowElement(
            MdxJsxFlowElement {
                name: dup_text_opt(&x.name),
                attributes: dup_mdx_attrs(&x.attributes),
            },
        ),
        NodeAttributes::MdxFlowExpression(x) => NodeAttributes::MdxFlowExpression(
            MdxFlowExpression { value: x.value.clone() },
        ),
        NodeAttributes::MdxjsEsm(x) => NodeAttributes::MdxjsEsm(
            MdxjsEsm { value: x.value.clone() },
        ),
        NodeAttributes::MdxJsxTextElement(x) => NodeAttributes::MdxJsxTextElement(
            MdxJsxTextElement {
                name: dup_text_opt(&x.name),
                attributes: dup_mdx_attrs(&x.attributes),
            },
        ),
        NodeAttributes::MdxTextExpression(x) => NodeAttributes::MdxTextExpression(
            MdxTextExpression { value: x.value.clone() },
        ),
        NodeAttributes::List(x) => NodeAttributes::List(
            List { ordered: x.ordered, start: x.start, spread: x.spread },
        ),
        NodeAttributes::ListItem(x) => NodeAttributes::ListItem(
            ListItem { checked: x.checked, spread: x.spread },
        ),
        NodeAttributes::FrontMatter(x) => NodeAttributes::FrontMatter(
            FrontMatter { format: x.format, properties: dup_properties(&x.properties) },
        ),
        NodeAttributes::Html(s) => NodeAttributes::Html(s.clone()),
        NodeAttributes::ThematicBreak => NodeAttributes::ThematicBreak,
        NodeAttributes::Break => NodeAttributes::Break,
        NodeAttributes::InlineCode(x) => NodeAttributes::InlineCode(
            InlineCode { value: x.value.clone() },
        ),
        NodeAttributes::InlineMath(x) => NodeAttributes::InlineMath(
            InlineMath { value: x.value.clone() },
        ),
        NodeAttributes::Text(s) => NodeAttributes::Text(s.clone()),
        NodeAttributes::Delete => NodeAttributes::Delete,
        NodeAttributes::Emphasis => NodeAttributes::Emphasis,
        NodeAttributes::Strong => NodeAttributes::Strong,
        NodeAttributes::Image(x) => NodeAttributes::Image(
            Image { alt: x.alt.clone(), url: x.url.clone(), title: dup_text_opt(&x.title) },
        ),
        NodeAttributes::ImageReference(x) => NodeAttributes::ImageReference(
            ImageReference {
                alt: x.alt.clone(),
                identifier: x.identifier.clone(),
                reference_kind: x.reference_kind,
                label: dup_text_opt(&x.label),
            },
        ),
        NodeAttributes::Link(x) => NodeAttributes::Link(
            Link { url: x.url.clone(), title: dup_text_opt(&x.title) },
        ),
        NodeAttributes::LinkReference(x) => NodeAttributes::LinkReference(
            LinkReference {
                reference_kind: x.reference_kind,
                identifier: x.identifier.clone(),
                label: dup_text_opt(&x.label),
            },
        ),
        NodeAttributes::Code(x) => NodeAttributes::Code(
            Code {
                value: x.value.clone(),
                lang: dup_text_opt(&x.lang),
                meta: dup_text_opt(&x.meta),
            },
        ),
        NodeAttributes::Math(x) => NodeAttributes::Math(
            Math { value: x.value.clone(), meta: dup_text_opt(&x.meta) },
        ),
        NodeAttributes::Heading(x) => NodeAttributes::Heading(Heading { depth: x.depth }),
        NodeAttributes::Definition(x) => NodeAttributes::Definition(
            Definition {
                url: x.url.clone(),
                title: dup_text_opt(&x.title),
                identifier: x.identifier.clone(),
                label: dup_text_opt(&x.label),
            },
        ),
        NodeAttributes::Table(x) => NodeAttributes::Table(Table { align: dup_align(&x.align) }),
        NodeAttributes::TableRow => NodeAttributes::TableRow,
        NodeAttributes::TableCell => NodeAttributes::TableCell,
        NodeAttributes::Paragraph => NodeAttributes::Paragraph,
    }
}

impl Ast {
    /// Copy the node at `src` and everything below it into `to`,
    /// children first. The copied region denotes a tree that agrees
    /// with the source's; nothing already in `to`, nor its root, nor the
    /// source, is touched. Yields `None` exactly where `src` does not
    /// resolve; a stale child inside the tree is simply not copied, as
    /// it is absent from the source's tree too.
    pub fn fork_node(&self, to: &mut Ast, src: NodeHandle) -> (r: Option<NodeHandle>)
        requires
            self.wf(),
            old(to).wf(),
        ensures
            final(to).wf(),
            final(to).root == old(to).root,
            old(to).slots@.len() <= final(to).slots@.len(),
            forall|i: int|
                0 <= i < old(to).slots@.len() ==> final(to).slots@[i] == old(to).slots@[i],
            match r {
                Some(h) => subtree_at(self.slots@, src) is Some && final(to).valid_handle(h) && old(
                    to,
                ).slots@.len() <= h.idx && tree_equiv(
                    subtree_at(final(to).slots@, h).unwrap(),
                    subtree_at(self.slots@, src).unwrap(),
                ),
                None => subtree_at(self.slots@, src) is None,
            },
        decreases src.idx as int,
    {
        let node = match self.get(src) {
            Some(n) => n,
            None => {
                return None;
            }
        };
        let ghost src_tree = subtree_at(self.slots@, src).unwrap();
        proof {
            assert(src_tree.children == subtree_list(self.slots@, node.children@, src.idx as int));
        }
        let mut hs: Vec<NodeHandle> = Vec::new();
        let n = node.children.len();
        let mut k: usize = 0;
        proof {
            assert(subtree_list(to.slots@, hs@, to.slots@.len() as int) =~= Seq::<
                TreeShape,
            >::empty());
            assert(subtree_list(self.slots@, node.children@.take(0), src.idx as int) =~= Seq::<
                TreeShape,
            >::empty());
        }
        while k < n
            invariant
                k <= n,
                n == node.children@.len(),
                self.wf(),
                to.wf(),
                self.valid_handle(src),
                *node == self.node_at(src),
                to.root == old(to).root,
                old(to).slots@.len() <= to.slots@.len(),
                forall|i: int|
                    0 <= i < old(to).slots@.len() ==> to.slots@[i] == old(to).slots@[i],
                hs@.len() <= k,
                forall|j: int|
                    0 <= j < hs@.len() ==> to.valid_handle(#[trigger] hs@[j]) && hs@[j].idx
                        < to.slots@.len(),
                trees_equiv(
                    subtree_list(to.slots@, hs@, to.slots@.len() as int),
                    subtree_list(self.slots@, node.children@.take(k as int), src.idx as int),
                ),
            decreases n - k,
        {
            let child = node.children[k];
            proof {
                let i = src.idx as int;
                assert(self.slots@[i].node is Some);
                assert(crate::arena::wf_node(self.slots@[i].node.unwrap(), i));
                assert(node.children@[k as int].idx < i);
            }
            let ghost pre = to.slots@;
            let ghost pre_hs = hs@;
            let child_r = self.fork_node(to, child);
            proof {
                lemma_subtree_list_frame(pre, to.slots@, pre_hs, pre.len() as int);
                lemma_subtree_list_bound(to.slots@, pre_hs, pre.len() as int, to.slots@.len() as int);
                lemma_subtree_list_snoc(
                    self.slots@,
                    node.children@.take(k as int),
                    src.idx as int,
                    child,
                );
                assert(node.children@.take(k as int).push(child) =~= node.children@.take(k + 1));
            }
            match child_r {
                Some(h) => {
                    proof {
                        lemma_subtree_list_snoc(to.slots@, pre_hs, to.slots@.len() as int, h);
                    }
                    hs.push(h);
                    proof {
                        assert(hs@ =~= pre_hs.push(h));
                        let lhs = subtree_list(to.slots@, hs@, to.slots@.len() as int);
                        let rhs = subtree_list(
                            self.slots@,
                            node.children@.take(k + 1),
                            src.idx as int,
                        );
                        assert(lhs =~= subtree_list(to.slots@, pre_hs, to.slots@.len() as int)
                            + seq![subtree_at(to.slots@, h).unwrap()]);
                        assert(rhs =~= subtree_list(
                            self.slots@,
                            node.children@.take(k as int),
                            src.idx as int,
                        ) + seq![subtree_at(self.slots@, child).unwrap()]);
                        assert forall|j: int| 0 <= j < lhs.len() implies tree_equiv(
                            #[trigger] lhs[j],
                            rhs[j],
                        ) by {
                            if j < lhs.len() - 1 {
                                assert(lhs[j] == subtree_list(
                                    to.slots@,
                                    pre_hs,
                                    to.slots@.len() as int,
                                )[j]);
                                assert(rhs[j] == subtree_list(
                                    self.slots@,
                                    node.children@.take(k as int),
                                    src.idx as int,
                                )[j]);
                            }
                        }
                    }
                }
                None => {}
            }
            k = k + 1;
        }
        proof {
            assert(node.children@.take(n as int) =~= node.children@);
        }
        let attrs = dup_attrs(&node.attributes);
        let ghost g_attrs = attrs;
        let span = node.span;
        let ghost pre_insert = to.slots@;
        let ghost hs_snapshot = hs@;
        proof {
            if crate::node::is_leaf_type(crate::node::node_type_of(&g_attrs)) {
                assert(crate::node::node_type_of(&g_attrs) == crate::node::node_type_of(
                    &node.attributes,
                ));
                assert(node.children@.len() == 0);
                assert(hs@.len() == 0);
            }
        }
        let fresh = AstNode { span, children: hs, attributes: attrs };
        let ghost g_node = fresh;
        let h = to.insert_node(fresh);
        proof {
            assert(to.slots@[h.idx as int].node == Some(g_node));
            lemma_subtree_list_frame(pre_insert, to.slots@, hs_snapshot, pre_insert.len() as int);
            let got = subtree_at(to.slots@, h).unwrap();
            assert(got.children == subtree_list(to.slots@, hs_snapshot, h.idx as int));
            assert(trees_equiv(got.children, src_tree.children));
            assert(tree_equiv(got, src_tree));
        }
        Some(h)
    }

    /// Copy the whole tree below `from` into a fresh graph, whose root
    /// is the copy; the fresh graph has no root where `from` does not
    /// resolve.
    pub fn fork(&self, from: NodeHandle) -> (r: Ast)
        requires
            self.wf(),
        ensures
            r.wf(),
            match r.root {
                Some(h) => subtree_at(self.slots@, from) is Some && r.valid_handle(h) && tree_equiv(
                    subtree_at(r.slots@, h).unwrap(),
                    subtree_at(self.slots@, from).unwrap(),
                ),
                None => subtree_at(self.slots@, from) is None,
            },
    {
        let mut forked = Ast::new();
        let root = self.fork_node(&mut forked, from);
        forked.root = root;
        forked
    }
}

} // verus!
