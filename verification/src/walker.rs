//! Traversal over a document graph: breadth-first or depth-first, with
//! optional depth limiting and optional pruning of a node's descendants.

use vstd::prelude::*;

use crate::arena::{wf_node, Ast, AstNode, NodeHandle};

verus! {

/// One pending traversal position: a node handle and its depth below
/// the walk's starting node.
#[derive(Clone, Copy, Debug, PartialEq, Eq, Structural)]
pub struct Cursor {
    pub depth: usize,
    pub index: NodeHandle,
}

/// The traversal discipline.
#[derive(Clone, Copy, Debug, PartialEq, Eq, Structural)]
pub enum WalkerMode {
    /// Depth-first walking: the most recently enqueued cursor is taken
    /// next.
    Depth,
    /// Breadth-first walking: the oldest enqueued cursor is taken next.
    Breadth,
}

impl Default for WalkerMode {
    fn default() -> (r: Self)
        ensures
            r == WalkerMode::Breadth,
    {
        WalkerMode::Breadth
    }
}

/// Whether the children of a node at `depth` are still explored under
/// the configured maximum. A negative maximum means unbounded.
pub open spec fn spec_explores_below(max_depth: isize, depth: usize) -> bool {
    max_depth < 0 || (depth as int) < max_depth as int
}

/// The cursors for `kids`, each at depth `depth`.
pub open spec fn children_cursors(kids: Seq<NodeHandle>, depth: usize) -> Seq<Cursor> {
    kids.map_values(|h: NodeHandle| Cursor { depth, index: h })
}

/// One traversal step over a pending queue: the cursor taken (front for
/// breadth, back for depth), skipping silently over stale handles, and
/// the queue that remains, with the taken node's children enqueued at
/// the back unless the depth limit withholds them.
pub open spec fn walker_step(
    ast: &Ast,
    queue: Seq<Cursor>,
    mode: WalkerMode,
    max_depth: isize,
) -> (Seq<Cursor>, Option<Cursor>)
    decreases queue.len(),
{
    if queue.len() == 0 {
        (queue, None::<Cursor>)
    } else {
        let cur = if mode is Depth {
            queue.last()
        } else {
            queue[0]
        };
        let rest = if mode is Depth {
            queue.drop_last()
        } else {
            queue.drop_first()
        };
        if ast.valid_handle(cur.index) {
            let node = ast.node_at(cur.index);
            if spec_explores_below(max_depth, cur.depth) {
                (rest + children_cursors(node.children@, (cur.depth + 1) as usize), Some(cur))
            } else {
                (rest, Some(cur))
            }
        } else {
            walker_step(ast, rest, mode, max_depth)
        }
    }
}

/// A single-pass traversal over one graph. It yields each reached node
/// paired with its handle; an exhausted walker yields nothing more.
pub struct RefWalker<'tree> {
    pub ast: &'tree Ast,
    pub queue: Vec<Cursor>,
    pub mode: WalkerMode,
    pub max_depth: isize,
}

impl<'tree> RefWalker<'tree> {
    /// The walker's invariant: the graph is well-formed, and every
    /// pending cursor either starts a walk (depth zero) or sits strictly
    /// deeper than its handle's slot index is high, which bounds every
    /// depth by the arena's size.
    pub open spec fn inv(&self) -> bool {
        &&& self.ast.wf()
        &&& forall|i: int|
            0 <= i < self.queue@.len() ==> ((#[trigger] self.queue@[i]).depth == 0 || (
            self.queue@[i].depth + self.queue@[i].index.idx) < self.ast.slots@.len())
    }

    /// A fresh walker over `ast`, seeded with `node` at depth zero (or
    /// empty when `node` is `None`), breadth-first, unbounded depth.
    pub fn new(ast: &'tree Ast, node: Option<NodeHandle>) -> (r: RefWalker<'tree>)
        requires
            ast.wf(),
        ensures
            r.inv(),
            r.ast == ast,
            r.mode == WalkerMode::Breadth,
            r.max_depth == -1isize,
            match node {
                Some(h) => r.queue@ == seq![Cursor { depth: 0, index: h }],
                None => r.queue@.len() == 0,
            },
    {
        let mut queue: Vec<Cursor> = Vec::new();
        match node {
            Some(h) => {
                queue.push(Cursor { depth: 0, index: h });
                proof {
                    assert(queue@ =~= seq![Cursor { depth: 0, index: h }]);
                }
            }
            None => {}
        }
        RefWalker { ast, queue, mode: WalkerMode::Breadth, max_depth: -1 }
    }

    /// Choose the traversal discipline.
    pub fn mode(self, mode: WalkerMode) -> (r: Self)
        ensures
            r == (RefWalker { mode, ..self }),
    {
        RefWalker { mode, ..self }
    }

    /// Limit the depth: nodes at the limit are still yielded, their
    /// children are withheld. Only a negative limit means unbounded: a
    /// limit of zero yields just the walk's seed, a limit of one the
    /// seed and its direct children, never a grandchild.
    pub fn max_depth(self, depth: isize) -> (r: Self)
        ensures
            r == (RefWalker { max_depth: depth, ..self }),
    {
        RefWalker { max_depth: depth, ..self }
    }

    /// Take one traversal step: pop cursors (front for breadth-first,
    /// back for depth-first) until one resolves, enqueue that node's
    /// children unless the depth limit withholds them, and yield the
    /// node with its handle. Yields `None` once the queue is exhausted.
    pub fn next(&mut self) -> (r: Option<(NodeHandle, &'tree AstNode)>)
        requires
            old(self).inv(),
        ensures
            final(self).inv(),
            final(self).ast == old(self).ast,
            final(self).mode == old(self).mode,
            final(self).max_depth == old(self).max_depth,
            ({
                let (q2, taken) = walker_step(
                    old(self).ast,
                    old(self).queue@,
                    old(self).mode,
                    old(self).max_depth,
                );
                &&& final(self).queue@ == q2
                &&& match r {
                    Some((h, n)) => taken is Some && h == taken.unwrap().index
                        && old(self).ast.valid_handle(h) && *n == old(self).ast.node_at(h),
                    None => taken is None,
                }
            }),
    {
        let ast = self.ast;
        loop
            invariant
                self.inv(),
                self.ast == old(self).ast,
                self.mode == old(self).mode,
                self.max_depth == old(self).max_depth,
                ast == old(self).ast,
                walker_step(old(self).ast, self.queue@, self.mode, self.max_depth)
                    == walker_step(old(self).ast, old(self).queue@, old(self).mode, old(
                    self,
                ).max_depth),
            decreases self.queue@.len(),
        {
            if self.queue.len() == 0 {
                return None;
            }
            let ghost entry_q = self.queue@;
            let cursor = match self.mode {
                WalkerMode::Depth => self.queue.pop().unwrap(),
                WalkerMode::Breadth => self.queue.remove(0),
            };
            proof {
                if self.mode is Depth {
                    assert(cursor == entry_q.last());
                    assert(self.queue@ =~= entry_q.drop_last());
                } else {
                    assert(cursor == entry_q[0]);
                    assert(self.queue@ =~= entry_q.drop_first());
                }
                assert(entry_q[0].depth == 0 || entry_q[0].depth + entry_q[0].index.idx
                    < ast.slots@.len());
                assert(entry_q.last() == entry_q[entry_q.len() - 1]);
            }
            match ast.get(cursor.index) {
                Some(node) => {
                    let explores = if self.max_depth < 0 {
                        true
                    } else {
                        cursor.depth < self.max_depth as usize
                    };
                    proof {
                        assert(explores == spec_explores_below(self.max_depth, cursor.depth));
                    }
                    let ghost rest = self.queue@;
                    if explores {
                        let slot_count = ast.slots.len();
                        proof {
                            assert(cursor.depth == 0 || cursor.depth + cursor.index.idx
                                < ast.slots@.len());
                            assert(cursor.index.idx < slot_count);
                            assert(cursor.depth + 1 + cursor.index.idx <= slot_count);
                        }
                        let mut k: usize = 0;
                        let n = node.children.len();
                        proof {
                            assert(self.queue@ =~= rest + children_cursors(
                                node.children@.take(0),
                                (cursor.depth + 1) as usize,
                            ));
                        }
                        while k < n
                            invariant
                                n == node.children@.len(),
                                k <= n,
                                self.ast.wf(),
                                self.ast == old(self).ast,
                                self.mode == old(self).mode,
                                self.max_depth == old(self).max_depth,
                                self.ast.valid_handle(cursor.index),
                                *node == self.ast.node_at(cursor.index),
                                cursor.depth + 1 + cursor.index.idx <= self.ast.slots@.len(),
                                self.ast.slots@.len() <= usize::MAX,
                                forall|i: int|
                                    0 <= i < rest.len() ==> ((#[trigger] rest[i]).depth == 0 || (
                                    rest[i].depth + rest[i].index.idx) < self.ast.slots@.len()),
                                self.queue@ == rest + children_cursors(
                                    node.children@.take(k as int),
                                    (cursor.depth + 1) as usize,
                                ),
                            decreases n - k,
                        {
                            let child = node.children[k];
                            proof {
                                let i = cursor.index.idx as int;
                                assert(self.ast.slots@[i].node is Some);
                                assert(wf_node(self.ast.slots@[i].node.unwrap(), i));
                                assert(self.ast.node_at(cursor.index).children@[k as int].idx < i);
                            }
                            self.queue.push(Cursor { depth: cursor.depth + 1, index: child });
                            proof {
                                assert(self.queue@ =~= rest + children_cursors(
                                    node.children@.take(k + 1),
                                    (cursor.depth + 1) as usize,
                                ));
                            }
                            k = k + 1;
                        }
                        proof {
                            assert(node.children@.take(n as int) =~= node.children@);
                        }
                    }
                    return Some((cursor.index, node));
                }
                None => {}
            }
        }
    }
}

/// One pruning-mode step over a pending queue: the cursor taken (front
/// for breadth, back for depth), skipping silently over stale handles,
/// and the queue that remains — with nothing enqueued yet: whether the
/// taken node's children follow is the caller's decision.
pub open spec fn walker_take(ast: &Ast, queue: Seq<Cursor>, mode: WalkerMode) -> (
    Seq<Cursor>,
    Option<Cursor>,
)
    decreases queue.len(),
{
    if queue.len() == 0 {
        (queue, None::<Cursor>)
    } else {
        let cur = if mode is Depth {
            queue.last()
        } else {
            queue[0]
        };
        let rest = if mode is Depth {
            queue.drop_last()
        } else {
            queue.drop_first()
        };
        if ast.valid_handle(cur.index) {
            (rest, Some(cur))
        } else {
            walker_take(ast, rest, mode)
        }
    }
}

impl<'tree> RefWalker<'tree> {
    /// Take the next resolvable node without enqueueing its children:
    /// the first half of a pruning step. The yielded depth is handed
    /// back to [`RefWalker::expand`] when the node is not pruned.
    pub fn take_next(&mut self) -> (r: Option<(NodeHandle, usize, &'tree AstNode)>)
        requires
            old(self).inv(),
        ensures
            final(self).inv(),
            final(self).ast == old(self).ast,
            final(self).mode == old(self).mode,
            final(self).max_depth == old(self).max_depth,
            ({
                let (q2, taken) = walker_take(old(self).ast, old(self).queue@, old(self).mode);
                &&& final(self).queue@ == q2
                &&& match r {
                    Some((h, depth, n)) => taken == Some(Cursor { depth, index: h }) && old(
                        self,
                    ).ast.valid_handle(h) && *n == old(self).ast.node_at(h) && (depth == 0 || depth
                        + h.idx < old(self).ast.slots@.len()),
                    None => taken is None,
                }
            }),
    {
        let ast = self.ast;
        loop
            invariant
                self.inv(),
                self.ast == old(self).ast,
                self.mode == old(self).mode,
                self.max_depth == old(self).max_depth,
                ast == old(self).ast,
                walker_take(old(self).ast, self.queue@, self.mode) == walker_take(
                    old(self).ast,
                    old(self).queue@,
                    old(self).mode,
                ),
            decreases self.queue@.len(),
        {
            if self.queue.len() == 0 {
                return None;
            }
            let ghost entry_q = self.queue@;
            let cursor = match self.mode {
                WalkerMode::Depth => self.queue.pop().unwrap(),
                WalkerMode::Breadth => self.queue.remove(0),
            };
            proof {
                if self.mode is Depth {
                    assert(cursor == entry_q.last());
                    assert(self.queue@ =~= entry_q.drop_last());
                } else {
                    assert(cursor == entry_q[0]);
                    assert(self.queue@ =~= entry_q.drop_first());
                }
                assert(entry_q[0].depth == 0 || entry_q[0].depth + entry_q[0].index.idx
                    < ast.slots@.len());
                assert(entry_q.last() == entry_q[entry_q.len() - 1]);
            }
            match ast.get(cursor.index) {
                Some(node) => {
                    return Some((cursor.index, cursor.depth, node));
                }
                None => {},
            }
        }
    }

    /// Enqueue the children of a node yielded by
    /// [`RefWalker::take_next`], unless the depth limit withholds them:
    /// the second half of a pruning step. Leaving this call out prunes
    /// the node's whole subtree while its siblings walk on.
    pub fn expand(&mut self, h: NodeHandle, depth: usize)
        requires
            old(self).inv(),
            old(self).ast.valid_handle(h),
            depth == 0 || depth + h.idx < old(self).ast.slots@.len(),
        ensures
            final(self).inv(),
            final(self).ast == old(self).ast,
            final(self).mode == old(self).mode,
            final(self).max_depth == old(self).max_depth,
            final(self).queue@ == old(self).queue@ + (
            if spec_explores_below(old(self).max_depth, depth) {
                children_cursors(old(self).ast.node_at(h).children@, (depth + 1) as usize)
            } else {
                Seq::<Cursor>::empty()
            }),
    {
        let ast = self.ast;
        let explores = if self.max_depth < 0 {
            true
        } else {
            depth < self.max_depth as usize
        };
        proof {
            assert(explores == spec_explores_below(self.max_depth, depth));
        }
        let ghost rest = self.queue@;
        if explores {
            let node = match ast.get(h) {
                Some(n) => n,
                None => {
                    proof {
                        assert(false);
                    }
                    return ;
                }
            };
            let slot_count = ast.slots.len();
            let mut k: usize = 0;
            let n = node.children.len();
            proof {
                assert(self.queue@ =~= rest + children_cursors(
                    node.children@.take(0),
                    (depth + 1) as usize,
                ));
            }
            while k < n
                invariant
                    n == node.children@.len(),
                    k <= n,
                    self.ast.wf(),
                    self.ast == old(self).ast,
                    self.mode == old(self).mode,
                    self.max_depth == old(self).max_depth,
                    self.ast.valid_handle(h),
                    *node == self.ast.node_at(h),
                    depth + 1 + h.idx <= self.ast.slots@.len(),
                    self.ast.slots@.len() <= usize::MAX,
                    forall|i: int|
                        0 <= i < rest.len() ==> ((#[trigger] rest[i]).depth == 0 || (rest[i].depth
                            + rest[i].index.idx) < self.ast.slots@.len()),
                    self.queue@ == rest + children_cursors(
                        node.children@.take(k as int),
                        (depth + 1) as usize,
                    ),
                decreases n - k,
            {
                let child = node.children[k];
                proof {
                    let i = h.idx as int;
                    assert(self.ast.slots@[i].node is Some);
                    assert(wf_node(self.ast.slots@[i].node.unwrap(), i));
                    assert(self.ast.node_at(h).children@[k as int].idx < i);
                }
                self.queue.push(Cursor { depth: depth + 1, index: child });
                proof {
                    assert(self.queue@ =~= rest + children_cursors(
                        node.children@.take(k + 1),
                        (depth + 1) as usize,
                    ));
                }
                k = k + 1;
            }
            proof {
                assert(node.children@.take(n as int) =~= node.children@);
            }
        } else {
            proof {
                assert(self.queue@ =~= rest + Seq::<Cursor>::empty());
            }
        }
    }
}

/// Mode-coherence law: one plain traversal step is exactly one pruning
/// take followed by an unconditional expand — so pruning mode differs
/// from plain walking only by the caller's decision to withhold
/// children.
pub proof fn lemma_step_is_take_then_expand(
    ast: &Ast,
    queue: Seq<Cursor>,
    mode: WalkerMode,
    max_depth: isize,
)
    ensures
        ({
            let (q_taken, taken) = walker_take(ast, queue, mode);
            walker_step(ast, queue, mode, max_depth) == match taken {
                None => (q_taken, None::<Cursor>),
                Some(cur) => (
                    q_taken + (if spec_explores_below(max_depth, cur.depth) {
                        children_cursors(
                            ast.node_at(cur.index).children@,
                            (cur.depth + 1) as usize,
                        )
                    } else {
                        Seq::<Cursor>::empty()
                    }),
                    Some(cur),
                ),
            }
        }),
    decreases queue.len(),
{
    if queue.len() == 0 {
    } else {
        let cur = if mode is Depth {
            queue.last()
        } else {
            queue[0]
        };
        let rest = if mode is Depth {
            queue.drop_last()
        } else {
            queue.drop_first()
        };
        if ast.valid_handle(cur.index) {
            if !spec_explores_below(max_depth, cur.depth) {
                assert(rest + Seq::<Cursor>::empty() =~= rest);
            }
        } else {
            lemma_step_is_take_then_expand(ast, rest, mode, max_depth);
        }
    }
}

/// Depth-limit law, bounded case: under a non-negative depth limit, a
/// walk whose pending cursors all sit at depths within the limit only
/// ever yields nodes within the limit, and every cursor it leaves
/// pending is within the limit too. So a walk seeded at depth zero with
/// limit `m` never yields a node deeper than `m`: with limit 1, the root
/// and its direct children, never a grandchild.
pub proof fn lemma_walker_step_depth_bound(
    ast: &Ast,
    queue: Seq<Cursor>,
    mode: WalkerMode,
    max_depth: isize,
)
    requires
        max_depth >= 0,
        forall|i: int| 0 <= i < queue.len() ==> (#[trigger] queue[i]).depth <= max_depth,
    ensures
        ({
            let (q2, taken) = walker_step(ast, queue, mode, max_depth);
            &&& forall|i: int| 0 <= i < q2.len() ==> (#[trigger] q2[i]).depth <= max_depth
            &&& taken is Some ==> taken.unwrap().depth <= max_depth
        }),
    decreases queue.len(),
{
    if queue.len() == 0 {
    } else {
        let cur = if mode is Depth {
            queue.last()
        } else {
            queue[0]
        };
        let rest = if mode is Depth {
            queue.drop_last()
        } else {
            queue.drop_first()
        };
        assert(cur == queue[if mode is Depth {
            queue.len() - 1
        } else {
            0int
        }]);
        assert(forall|i: int| 0 <= i < rest.len() ==> (#[trigger] rest[i]).depth <= max_depth);
        if ast.valid_handle(cur.index) {
            if spec_explores_below(max_depth, cur.depth) {
                let kids = children_cursors(
                    ast.node_at(cur.index).children@,
                    (cur.depth + 1) as usize,
                );
                assert(forall|i: int|
                    0 <= i < kids.len() ==> (#[trigger] kids[i]).depth == cur.depth + 1);
                let q2 = rest + kids;
                assert(forall|i: int|
                    0 <= i < q2.len() ==> (#[trigger] q2[i]).depth <= max_depth);
            }
        } else {
            lemma_walker_step_depth_bound(ast, rest, mode, max_depth);
        }
    }
}

/// Depth-limit law, zero case: with a depth limit of zero, a walk
/// seeded with one resolvable node yields exactly that node and then
/// nothing: the step takes the seed, enqueues none of its children, and
/// a step on the emptied queue takes nothing.
pub proof fn lemma_depth_zero_only_seed(ast: &Ast, h: NodeHandle, mode: WalkerMode)
    requires
        ast.valid_handle(h),
    ensures
        walker_step(ast, seq![Cursor { depth: 0, index: h }], mode, 0) == (
            Seq::<Cursor>::empty(),
            Some(Cursor { depth: 0, index: h }),
        ),
        walker_step(ast, Seq::<Cursor>::empty(), mode, 0).1 is None,
{
    let q = seq![Cursor { depth: 0, index: h }];
    assert(q.last() == q[0]);
    assert(!spec_explores_below(0, 0));
    assert(q.drop_last() =~= Seq::<Cursor>::empty());
    assert(q.drop_first() =~= Seq::<Cursor>::empty());
}

impl Ast {
    /// Walk the whole document from its root.
    pub fn walk_ref(&self) -> (r: RefWalker<'_>)
        requires
            self.wf(),
        ensures
            r.inv(),
            r.ast == self,
            r.mode == WalkerMode::Breadth,
            r.max_depth == -1isize,
            match self.root {
                Some(h) => r.queue@ == seq![Cursor { depth: 0, index: h }],
                None => r.queue@.len() == 0,
            },
    {
        RefWalker::new(self, self.root)
    }

    /// Walk the subtree rooted at `index`.
    pub fn walk_ref_from(&self, index: NodeHandle) -> (r: RefWalker<'_>)
        requires
            self.wf(),
        ensures
            r.inv(),
            r.ast == self,
            r.mode == WalkerMode::Breadth,
            r.max_depth == -1isize,
            r.queue@ == seq![Cursor { depth: 0, index }],
    {
        RefWalker::new(self, Some(index))
    }
}

} // verus!
