//! The document graph: an arena that owns every syntax node of one
//! document, addressed by stable, generation-checked handles.
//!
//! Children are expressed purely by handle, never by owning pointer.
//! Nodes are inserted children-first, so every child handle stored in an
//! occupied slot points at a strictly lower slot; that order is the
//! well-formedness invariant the traversal and serialization recursions
//! rest on. A freed slot is never reused, and freeing bumps the slot's
//! generation, so a handle taken before a free can never alias a node.

use vstd::prelude::*;

use crate::node::{is_leaf_type, node_type_of, NodeAttributes, NodeType, Span};

verus! {

/// A stable, copyable identity of one node in one arena: a slot index
/// and the generation the slot had when the node was inserted. It is a
/// weak reference: resolving it checks the generation, and a handle from
/// a freed slot resolves to nothing rather than to an unrelated node.
#[derive(Clone, Copy, Debug, PartialEq, Eq, Structural)]
pub struct NodeHandle {
    pub idx: usize,
    pub generation: u64,
}

/// One syntax element: an optional source span, the ordered child
/// handles, and the per-kind payload.
#[derive(Debug)]
pub struct AstNode {
    pub span: Option<Span>,
    pub children: Vec<NodeHandle>,
    pub attributes: NodeAttributes,
}

impl AstNode {
    /// The kind of this node.
    pub fn get_type(&self) -> (t: NodeType)
        ensures
            t == node_type_of(&self.attributes),
    {
        match &self.attributes {
            NodeAttributes::Root => NodeType::Root,
            NodeAttributes::BlockQuote => NodeType::BlockQuote,
            NodeAttributes::FootnoteDefinition(..) => NodeType::FootnoteDefinition,
            NodeAttributes::FootnoteReference(..) => NodeType::FootnoteReference,
            NodeAttributes::MdxJsxFlowElement(..) => NodeType::MdxJsxFlowElement,
            NodeAttributes::MdxFlowExpression(..) => NodeType::MdxFlowExpression,
            NodeAttributes::MdxjsEsm(..) => NodeType::MdxjsEsm,
            NodeAttributes::MdxJsxTextElement(..) => NodeType::MdxJsxTextElement,
            NodeAttributes::MdxTextExpression(..) => NodeType::MdxTextExpression,
            NodeAttributes::List(..) => NodeType::List,
            NodeAttributes::ListItem(..) => NodeType::ListItem,
            NodeAttributes::FrontMatter(..) => NodeType::FrontMatter,
            NodeAttributes::Html(..) => NodeType::Html,
            NodeAttributes::ThematicBreak => NodeType::ThematicBreak,
            NodeAttributes::Break => NodeType::Break,
            NodeAttributes::InlineCode(..) => NodeType::InlineCode,
            NodeAttributes::InlineMath(..) => NodeType::InlineMath,
            NodeAttributes::Text(..) => NodeType::Text,
            NodeAttributes::Delete => NodeType::Delete,
            NodeAttributes::Emphasis => NodeType::Emphasis,
            NodeAttributes::Strong => NodeType::Strong,
            NodeAttributes::Image(..) => NodeType::Image,
            NodeAttributes::ImageReference(..) => NodeType::ImageReference,
            NodeAttributes::Link(..) => NodeType::Link,
            NodeAttributes::LinkReference(..) => NodeType::LinkReference,
            NodeAttributes::Code(..) => NodeType::Code,
            NodeAttributes::Math(..) => NodeType::Math,
            NodeAttributes::Heading(..) => NodeType::Heading,
            NodeAttributes::Definition(..) => NodeType::Definition,
            NodeAttributes::Table(..) => NodeType::Table,
            NodeAttributes::TableRow => NodeType::TableRow,
            NodeAttributes::TableCell => NodeType::TableCell,
            NodeAttributes::Paragraph => NodeType::Paragraph,
        }
    }

    /// The node's payload.
    pub fn get_attributes(&self) -> (r: &NodeAttributes)
        ensures
            r == &self.attributes,
    {
        &self.attributes
    }

    /// The node's source span, if the parser recorded one.
    pub fn get_position(&self) -> (r: &Option<Span>)
        ensures
            r == &self.span,
    {
        &self.span
    }
}

/// One arena slot: its current generation and, when occupied, its node.
#[derive(Debug)]
pub struct Slot {
    pub generation: u64,
    pub node: Option<AstNode>,
}

/// A document graph: a slot arena holding every node of one document,
/// plus the handle of the document's root, if conversion produced one.
#[derive(Debug)]
pub struct Ast {
    pub slots: Vec<Slot>,
    pub root: Option<NodeHandle>,
}

/// The shape of one node and its descendants, extracted from an arena:
/// the mathematical tree a graph region denotes. Children that do not
/// resolve are absent from it.
pub struct TreeShape {
    pub span: Option<Span>,
    pub attributes: NodeAttributes,
    pub children: Seq<TreeShape>,
}

/// The tree rooted at `h` in `slots`, or `None` where `h` does not
/// resolve. A child handle that does not resolve, or that does not point
/// strictly below its parent, contributes nothing.
pub open spec fn subtree_at(slots: Seq<Slot>, h: NodeHandle) -> Option<TreeShape>
    decreases h.idx as int, 1int, 0int,
{
    if h.idx < slots.len() && slots[h.idx as int].generation == h.generation
        && slots[h.idx as int].node is Some {
        let node = slots[h.idx as int].node.unwrap();
        Some(TreeShape {
            span: node.span,
            attributes: node.attributes,
            children: subtree_list(slots, node.children@, h.idx as int),
        })
    } else {
        None
    }
}

/// The trees rooted at each of `kids` that resolves below `bound`, in
/// order.
pub open spec fn subtree_list(slots: Seq<Slot>, kids: Seq<NodeHandle>, bound: int) -> Seq<
    TreeShape,
>
    decreases bound, 0int, kids.len(),
{
    if kids.len() == 0 || bound < 0 {
        Seq::empty()
    } else {
        let rest = subtree_list(slots, kids.drop_first(), bound);
        if kids[0].idx < bound {
            match subtree_at(slots, kids[0]) {
                Some(t) => seq![t] + rest,
                None => rest,
            }
        } else {
            rest
        }
    }
}

/// A node is well-formed at slot `bound` when its children sit strictly
/// below `bound` and a leaf kind owns no children.
pub open spec fn wf_node(node: AstNode, bound: int) -> bool {
    &&& forall|i: int|
        0 <= i < node.children@.len() ==> (#[trigger] node.children@[i]).idx < bound
    &&& is_leaf_type(node_type_of(&node.attributes)) ==> node.children@.len() == 0
}

impl Ast {
    /// A handle resolves when its slot exists, the generations agree,
    /// and the slot is occupied.
    pub open spec fn valid_handle(&self, h: NodeHandle) -> bool {
        &&& h.idx < self.slots@.len()
        &&& self.slots@[h.idx as int].generation == h.generation
        &&& self.slots@[h.idx as int].node is Some
    }

    /// The node a valid handle resolves to.
    pub open spec fn node_at(&self, h: NodeHandle) -> AstNode
        recommends
            self.valid_handle(h),
    {
        self.slots@[h.idx as int].node.unwrap()
    }

    /// Every occupied slot holds a well-formed node, and no occupied
    /// slot has exhausted its generation counter.
    pub open spec fn wf(&self) -> bool {
        forall|i: int|
            0 <= i < self.slots@.len() && (#[trigger] self.slots@[i]).node is Some ==> {
                &&& wf_node(self.slots@[i].node.unwrap(), i)
                &&& self.slots@[i].generation < u64::MAX
            }
    }

    /// An empty graph with no root.
    pub fn new() -> (r: Ast)
        ensures
            r.slots@.len() == 0,
            r.root is None,
            r.wf(),
    {
        Ast { slots: Vec::new(), root: None }
    }

    /// Insert one node, whose children must already resolve, and hand
    /// back its handle. Existing slots and the root are untouched.
    pub fn insert_node(&mut self, node: AstNode) -> (h: NodeHandle)
        requires
            old(self).wf(),
            forall|i: int|
                0 <= i < node.children@.len() ==> old(self).valid_handle(
                    #[trigger] node.children@[i],
                ),
            is_leaf_type(node_type_of(&node.attributes)) ==> node.children@.len() == 0,
        ensures
            final(self).slots@ == old(self).slots@.push(Slot { generation: 0, node: Some(node) }),
            final(self).root == old(self).root,
            h.idx == old(self).slots@.len(),
            h.generation == 0,
            final(self).valid_handle(h),
            final(self).wf(),
    {
        let idx = self.slots.len();
        self.slots.push(Slot { generation: 0, node: Some(node) });
        proof {
            assert forall|i: int|
                0 <= i < self.slots@.len() && (#[trigger] self.slots@[i]).node is Some implies {
                &&& wf_node(self.slots@[i].node.unwrap(), i)
                &&& self.slots@[i].generation < u64::MAX
            } by {
                if i < old(self).slots@.len() {
                    assert(self.slots@[i] == old(self).slots@[i]);
                }
            }
        }
        NodeHandle { idx, generation: 0 }
    }

    /// Resolve a handle. A handle from a freed slot, or from another
    /// generation of a slot, resolves to `None`, never to an unrelated
    /// node.
    pub fn get(&self, h: NodeHandle) -> (r: Option<&AstNode>)
        ensures
            match r {
                Some(n) => self.valid_handle(h) && *n == self.node_at(h),
                None => !self.valid_handle(h),
            },
    {
        if h.idx < self.slots.len() {
            let slot = &self.slots[h.idx];
            if slot.generation == h.generation {
                slot.node.as_ref()
            } else {
                None
            }
        } else {
            None
        }
    }

    /// Free the node a handle resolves to, bumping the slot's
    /// generation: the handle, and every copy of it, resolves to nothing
    /// from now on. Freeing an already-stale handle changes nothing.
    pub fn remove(&mut self, h: NodeHandle) -> (r: Option<AstNode>)
        requires
            old(self).wf(),
        ensures
            final(self).wf(),
            !final(self).valid_handle(h),
            final(self).root == old(self).root,
            old(self).valid_handle(h) ==> {
                &&& r == Some(old(self).node_at(h))
                &&& final(self).slots@ == old(self).slots@.update(
                    h.idx as int,
                    Slot { generation: (h.generation + 1) as u64, node: None },
                )
            },
            !old(self).valid_handle(h) ==> r is None && final(self).slots@ == old(self).slots@,
    {
        if h.idx < self.slots.len() {
            let occupied = {
                let slot = &self.slots[h.idx];
                slot.generation == h.generation && slot.node.is_some()
            };
            if occupied {
                let mut taken = Slot { generation: h.generation + 1, node: None };
                self.slots.set_and_swap(h.idx, &mut taken);
                proof {
                    assert forall|i: int|
                        0 <= i < self.slots@.len() && (#[trigger] self.slots@[i]).node is Some
                        implies {
                        &&& wf_node(self.slots@[i].node.unwrap(), i)
                        &&& self.slots@[i].generation < u64::MAX
                    } by {
                        assert(self.slots@[i] == old(self).slots@[i]);
                    }
                }
                taken.node
            } else {
                None
            }
        } else {
            None
        }
    }

    /// The document's root node; `None` when the document has no root
    /// or the root handle no longer resolves.
    pub fn get_root(&self) -> (r: Option<&AstNode>)
        ensures
            match r {
                Some(n) => self.root is Some && self.valid_handle(self.root.unwrap()) && *n
                    == self.node_at(self.root.unwrap()),
                None => self.root is None || !self.valid_handle(self.root.unwrap()),
            },
    {
        match self.root {
            Some(h) => self.get(h),
            None => None,
        }
    }
}

impl Default for Ast {
    fn default() -> (r: Ast)
        ensures
            r.slots@.len() == 0,
            r.root is None,
            r.wf(),
    {
        Ast::new()
    }
}

} // verus!
