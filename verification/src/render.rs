//! Re-serialization of a document graph into CommonMark-family text:
//! each node renders with the minimal syntax that reproduces it, and a
//! node's rendering is pinned, character for character, by a recursive
//! specification over the tree the graph denotes.

use vstd::prelude::*;

use crate::arena::{subtree_at, subtree_list, Ast, AstNode, NodeHandle, Slot, TreeShape};
use crate::codec::{toml_text_of, yaml_text_of};
use crate::node::{FrontMatter, FrontMatterFormat, NodeAttributes};
use crate::value::Datum;

verus! {

/// A title or label rendered after a space, in quotes, or nothing.
pub open spec fn opt_quoted(o: Option<String>) -> Seq<char> {
    match o {
        Some(t) => " \""@ + t@ + "\""@,
        None => Seq::empty(),
    }
}

/// A footnote's label where it has one, else its identifier.
pub open spec fn label_or_id(label: Option<String>, identifier: String) -> Seq<char> {
    match label {
        Some(l) => l@,
        None => identifier@,
    }
}

/// `depth` repetitions of the heading marker.
pub open spec fn heading_marks(depth: int) -> Seq<char> {
    Seq::new(depth as nat, |i: int| '#')
}

/// The text of a front-matter block: its properties re-encoded in the
/// format the block was written in.
pub open spec fn front_matter_text(fm: FrontMatter) -> Seq<char> {
    match fm.format {
        FrontMatterFormat::Yaml => yaml_text_of(Datum::Mapping(fm.properties)),
        FrontMatterFormat::Toml => toml_text_of(Datum::Mapping(fm.properties)),
    }
}

/// `s` with every newline turned into a newline plus a quote marker.
pub open spec fn replace_nl(s: Seq<char>) -> Seq<char>
    decreases s.len(),
{
    if s.len() == 0 {
        Seq::empty()
    } else {
        (if s[0] == '\n' {
            "\n> "@
        } else {
            seq![s[0]]
        }) + replace_nl(s.drop_first())
    }
}

/// A block quote's body: every line of `s` behind a quote marker.
pub open spec fn quote_lines(s: Seq<char>) -> Seq<char> {
    "\n> "@ + replace_nl(s)
}

/// The rendering of one extracted tree.
pub open spec fn render_spec(t: TreeShape) -> Seq<char>
    decreases t, 1int,
{
    let c = render_seq(t.children);
    match t.attributes {
        NodeAttributes::Root => c,
        NodeAttributes::BlockQuote => quote_lines(c),
        NodeAttributes::FootnoteDefinition(a) => "[^"@ + label_or_id(a.label, a.identifier)
            + "]: "@ + c,
        NodeAttributes::FootnoteReference(a) => "[^"@ + label_or_id(a.label, a.identifier) + "]"@,
        NodeAttributes::MdxJsxFlowElement(_) => c,
        NodeAttributes::MdxFlowExpression(_) => c,
        NodeAttributes::MdxjsEsm(_) => c,
        NodeAttributes::MdxJsxTextElement(_) => c,
        NodeAttributes::MdxTextExpression(_) => c,
        NodeAttributes::List(_) => c,
        NodeAttributes::ListItem(_) => c,
        NodeAttributes::FrontMatter(fm) => "---\n"@ + front_matter_text(fm) + "---\n"@,
        NodeAttributes::Html(s) => s@,
        NodeAttributes::ThematicBreak => "***\n"@,
        NodeAttributes::Break => "\\\n"@,
        NodeAttributes::InlineCode(a) => "`"@ + a.value@ + "`"@,
        NodeAttributes::InlineMath(a) => "$"@ + a.value@ + "$"@,
        NodeAttributes::Text(s) => s@,
        NodeAttributes::Delete => "~~"@ + c + "~~"@,
        NodeAttributes::Emphasis => "*"@ + c + "*"@,
        NodeAttributes::Strong => "**"@ + c + "**"@,
        NodeAttributes::Image(a) => "!["@ + a.alt@ + "](\""@ + a.url@ + "\""@ + opt_quoted(a.title)
            + ")"@,
        NodeAttributes::ImageReference(a) => "!"@ + (if a.alt@.len() > 0 {
            "["@ + a.alt@ + "]"@
        } else {
            Seq::empty()
        }) + "["@ + a.identifier@ + opt_quoted(a.label) + "]"@,
        NodeAttributes::Link(a) => "["@ + c + "]("@ + a.url@ + opt_quoted(a.title) + ")"@,
        NodeAttributes::LinkReference(a) => "["@ + a.identifier@ + "]"@ + (match a.label {
            Some(l) => "["@ + l@ + "]"@,
            None => Seq::empty(),
        }),
        NodeAttributes::Code(a) => "```"@ + (match a.lang {
            Some(l) => l@ + " "@,
            None => Seq::empty(),
        }) + (match a.meta {
            Some(m) => "\""@ + m@ + "\""@,
            None => Seq::empty(),
        }) + "\n"@ + a.value@ + "\n```"@,
        NodeAttributes::Math(a) => "$$\n"@ + a.value@ + "\n$$\n"@,
        NodeAttributes::Heading(a) => heading_marks(a.depth as int) + " "@ + c,
        NodeAttributes::Definition(a) => "["@ + a.identifier@ + "]: "@ + a.url@,
        NodeAttributes::Table(_) => c,
        NodeAttributes::TableRow => c,
        NodeAttributes::TableCell => c + "\n"@,
        NodeAttributes::Paragraph => c,
    }
}

/// The renderings of a list of trees, concatenated in order.
pub open spec fn render_seq(ts: Seq<TreeShape>) -> Seq<char>
    decreases ts, 0int,
{
    if ts.len() == 0 {
        Seq::empty()
    } else {
        render_spec(ts[0]) + render_seq(ts.drop_first())
    }
}

/// What rendering a handle gives: the rendering of its tree, or nothing
/// where the handle does not resolve.
pub open spec fn render_of(slots: Seq<Slot>, h: NodeHandle) -> Seq<char> {
    match subtree_at(slots, h) {
        Some(t) => render_spec(t),
        None => Seq::empty(),
    }
}

/// Rendering one more tree appends its rendering.
proof fn lemma_render_seq_snoc(ts: Seq<TreeShape>, t: TreeShape)
    ensures
        render_seq(ts.push(t)) == render_seq(ts) + render_spec(t),
    decreases ts.len(),
{
    if ts.len() == 0 {
        assert(ts.push(t) =~= seq![t]);
        assert(seq![t][0] == t);
        assert(seq![t].drop_first() =~= Seq::<TreeShape>::empty());
        assert(render_seq(Seq::<TreeShape>::empty()) =~= Seq::<char>::empty());
        assert(render_spec(t) + Seq::<char>::empty() =~= render_spec(t));
        assert(render_seq(ts) + render_spec(t) =~= render_spec(t));
    } else {
        lemma_render_seq_snoc(ts.drop_first(), t);
        assert(ts.push(t)[0] == ts[0]);
        assert(ts.push(t).drop_first() =~= ts.drop_first().push(t));
        assert(render_spec(ts[0]) + (render_seq(ts.drop_first()) + render_spec(t)) =~= (
        render_spec(ts[0]) + render_seq(ts.drop_first())) + render_spec(t));
    }
}

/// Growing the text by one character grows its quoted form by that
/// character, or by a fresh quote marker at a newline.
proof fn lemma_replace_nl_snoc(s: Seq<char>, ch: char)
    ensures
        replace_nl(s.push(ch)) == replace_nl(s) + (if ch == '\n' {
            "\n> "@
        } else {
            seq![ch]
        }),
    decreases s.len(),
{
    let tail = (
    if ch == '\n' {
        "\n> "@
    } else {
        seq![ch]
    });
    if s.len() == 0 {
        assert(s.push(ch) =~= seq![ch]);
        assert(seq![ch][0] == ch);
        assert(seq![ch].drop_first() =~= Seq::<char>::empty());
        assert(replace_nl(Seq::<char>::empty()) =~= Seq::<char>::empty());
        assert(tail + Seq::<char>::empty() =~= tail);
        assert(replace_nl(s) + tail =~= tail);
    } else {
        lemma_replace_nl_snoc(s.drop_first(), ch);
        assert(s.push(ch)[0] == s[0]);
        assert(s.push(ch).drop_first() =~= s.drop_first().push(ch));
        let head = (
        if s[0] == '\n' {
            "\n> "@
        } else {
            seq![s[0]]
        });
        assert(head + (replace_nl(s.drop_first()) + tail) =~= (head + replace_nl(s.drop_first()))
            + tail);
    }
}

impl Ast {
    /// Render the node at `h` and its descendants. A handle that does
    /// not resolve renders as nothing, as does a stale child inside the
    /// tree.
    pub fn render(&self, h: NodeHandle) -> (r: String)
        requires
            self.wf(),
        ensures
            r@ == render_of(self.slots@, h),
        decreases h.idx as int, 1int,
    {
        let node = match self.get(h) {
            Some(n) => n,
            None => {
                return String::new();
            }
        };
        let ghost t = subtree_at(self.slots@, h).unwrap();
        proof {
            assert(t.attributes == node.attributes);
            assert(t.children == subtree_list(self.slots@, node.children@, h.idx as int));
        }
        let mut out = String::new();
        match &node.attributes {
            NodeAttributes::Root => {
                let c = self.render_children(node, h);
                out.append(c.as_str());
            }
            NodeAttributes::BlockQuote => {
                let c = self.render_children(node, h);
                out.append("\n> ");
                let body = c.as_str();
                let n = body.unicode_len();
                let mut i: usize = 0;
                proof {
                    assert(replace_nl(body@.take(0)) =~= Seq::<char>::empty());
                    assert(out@ =~= "\n> "@ + replace_nl(body@.take(0)));
                }
                while i < n
                    invariant
                        i <= n,
                        n == body@.len(),
                        body@ == c@,
                        out@ == "\n> "@ + replace_nl(body@.take(i as int)),
                    decreases n - i,
                {
                    let ch = body.get_char(i);
                    proof {
                        lemma_replace_nl_snoc(body@.take(i as int), ch);
                        assert(body@.take(i as int).push(ch) =~= body@.take(i + 1));
                    }
                    if ch == '\n' {
                        out.append("\n> ");
                        proof {
                            assert(out@ =~= "\n> "@ + replace_nl(body@.take(i + 1)));
                        }
                    } else {
                        let piece = body.substring_char(i, i + 1);
                        proof {
                            assert(piece@ =~= seq![ch]);
                        }
                        out.append(piece);
                        proof {
                            assert(out@ =~= "\n> "@ + replace_nl(body@.take(i + 1)));
                        }
                    }
                    i = i + 1;
                }
                proof {
                    assert(body@.take(n as int) =~= body@);
                }
            }
            NodeAttributes::FootnoteDefinition(a) => {
                out.append("[^");
                match &a.label {
                    Some(l) => out.append(l.as_str()),
                    None => out.append(a.identifier.as_str()),
                }
                out.append("]: ");
                let c = self.render_children(node, h);
                out.append(c.as_str());
            }
            NodeAttributes::FootnoteReference(a) => {
                out.append("[^");
                match &a.label {
                    Some(l) => out.append(l.as_str()),
                    None => out.append(a.identifier.as_str()),
                }
                out.append("]");
            }
            NodeAttributes::MdxJsxFlowElement(_) => {
                let c = self.render_children(node, h);
                out.append(c.as_str());
            }
            NodeAttributes::MdxFlowExpression(_) => {
                let c = self.render_children(node, h);
                out.append(c.as_str());
            }
            NodeAttributes::MdxjsEsm(_) => {
                let c = self.render_children(node, h);
                out.append(c.as_str());
            }
            NodeAttributes::MdxJsxTextElement(_) => {
                let c = self.render_children(node, h);
                out.append(c.as_str());
            }
            NodeAttributes::MdxTextExpression(_) => {
                let c = self.render_children(node, h);
                out.append(c.as_str());
            }
            NodeAttributes::List(_) => {
                let c = self.render_children(node, h);
                out.append(c.as_str());
            }
            NodeAttributes::ListItem(_) => {
                let c = self.render_children(node, h);
                out.append(c.as_str());
            }
            NodeAttributes::FrontMatter(fm) => {
                out.append("---\n");
                let body = encode_front_matter(fm);
                out.append(body.as_str());
                out.append("---\n");
            }
            NodeAttributes::Html(s) => {
                out.append(s.as_str());
            }
            NodeAttributes::ThematicBreak => {
                out.append("***\n");
            }
            NodeAttributes::Break => {
                out.append("\\\n");
            }
            NodeAttributes::InlineCode(a) => {
                out.append("`");
                out.append(a.value.as_str());
                out.append("`");
            }
            NodeAttributes::InlineMath(a) => {
                out.append("$");
                out.append(a.value.as_str());
                out.append("$");
            }
            NodeAttributes::Text(s) => {
                out.append(s.as_str());
            }
            NodeAttributes::Delete => {
                let c = self.render_children(node, h);
                out.append("~~");
                out.append(c.as_str());
                out.append("~~");
            }
            NodeAttributes::Emphasis => {
                let c = self.render_children(node, h);
                out.append("*");
                out.append(c.as_str());
                out.append("*");
            }
            NodeAttributes::Strong => {
                let c = self.render_children(node, h);
                out.append("**");
                out.append(c.as_str());
                out.append("**");
            }
            NodeAttributes::Image(a) => {
                out.append("![");
                out.append(a.alt.as_str());
                out.append("](\"");
                out.append(a.url.as_str());
                out.append("\"");
                match &a.title {
                    Some(titl) => {
                        out.append(" \"");
                        out.append(titl.as_str());
                        out.append("\"");
                    }
                    None => {}
                }
                out.append(")");
            }
            NodeAttributes::ImageReference(a) => {
                out.append("!");
                if a.alt.as_str().unicode_len() > 0 {
                    out.append("[");
                    out.append(a.alt.as_str());
                    out.append("]");
                }
                out.append("[");
                out.append(a.identifier.as_str());
                match &a.label {
                    Some(l) => {
                        out.append(" \"");
                        out.append(l.as_str());
                        out.append("\"");
                    }
                    None => {}
                }
                out.append("]");
            }
            NodeAttributes::Link(a) => {
                let c = self.render_children(node, h);
                out.append("[");
                out.append(c.as_str());
                out.append("](");
                out.append(a.url.as_str());
                match &a.title {
                    Some(titl) => {
                        out.append(" \"");
                        out.append(titl.as_str());
                        out.append("\"");
                    }
                    None => {}
                }
                out.append(")");
            }
            NodeAttributes::LinkReference(a) => {
                out.append("[");
                out.append(a.identifier.as_str());
                out.append("]");
                match &a.label {
                    Some(l) => {
                        out.append("[");
                        out.append(l.as_str());
                        out.append("]");
                    }
                    None => {}
                }
            }
            NodeAttributes::Code(a) => {
                out.append("```");
                match &a.lang {
                    Some(l) => {
                        out.append(l.as_str());
                        out.append(" ");
                    }
                    None => {}
                }
                match &a.meta {
                    Some(m) => {
                        out.append("\"");
                        out.append(m.as_str());
                        out.append("\"");
                    }
                    None => {}
                }
                out.append("\n");
                out.append(a.value.as_str());
                out.append("\n```");
            }
            NodeAttributes::Math(a) => {
                out.append("$$\n");
                out.append(a.value.as_str());
                out.append("\n$$\n");
            }
            NodeAttributes::Heading(a) => {
                let depth = a.depth;
                let mut k: u8 = 0;
                proof {
                    reveal_strlit("#");
                    assert(out@ =~= heading_marks(0));
                }
                while k < depth
                    invariant
                        k <= depth,
                        out@ == heading_marks(k as int),
                    decreases depth - k,
                {
                    out.append("#");
                    proof {
                        reveal_strlit("#");
                        assert(out@ =~= heading_marks(k as int + 1));
                    }
                    k = k + 1;
                }
                out.append(" ");
                let c = self.render_children(node, h);
                out.append(c.as_str());
            }
            NodeAttributes::Definition(a) => {
                out.append("[");
                out.append(a.identifier.as_str());
                out.append("]: ");
                out.append(a.url.as_str());
            }
            NodeAttributes::Table(_) => {
                let c = self.render_children(node, h);
                out.append(c.as_str());
            }
            NodeAttributes::TableRow => {
                let c = self.render_children(node, h);
                out.append(c.as_str());
            }
            NodeAttributes::TableCell => {
                let c = self.render_children(node, h);
                out.append(c.as_str());
                out.append("\n");
            }
            NodeAttributes::Paragraph => {
                let c = self.render_children(node, h);
                out.append(c.as_str());
            }
        }
        proof {
            assert(out@ =~= render_spec(t));
        }
        out
    }

    /// Render a node's children, in order; a child whose handle no
    /// longer resolves renders as nothing.
    fn render_children(&self, node: &AstNode, parent: NodeHandle) -> (r: String)
        requires
            self.wf(),
            self.valid_handle(parent),
            *node == self.node_at(parent),
        ensures
            r@ == render_seq(subtree_list(self.slots@, node.children@, parent.idx as int)),
        decreases parent.idx as int, 0int,
    {
        let mut out = String::new();
        let n = node.children.len();
        let mut k: usize = 0;
        let ghost bound = parent.idx as int;
        proof {
            assert(subtree_list(self.slots@, node.children@.take(0), bound) =~= Seq::<
                TreeShape,
            >::empty());
            assert(out@ =~= render_seq(subtree_list(self.slots@, node.children@.take(0), bound)));
        }
        while k < n
            invariant
                k <= n,
                n == node.children@.len(),
                self.wf(),
                self.valid_handle(parent),
                *node == self.node_at(parent),
                bound == parent.idx as int,
                out@ == render_seq(subtree_list(self.slots@, node.children@.take(k as int), bound)),
            decreases n - k,
        {
            let child = node.children[k];
            proof {
                let i = parent.idx as int;
                assert(self.slots@[i].node is Some);
                assert(crate::arena::wf_node(self.slots@[i].node.unwrap(), i));
                assert(node.children@[k as int].idx < i);
            }
            let piece = self.render(child);
            proof {
                crate::convert::lemma_subtree_list_snoc(
                    self.slots@,
                    node.children@.take(k as int),
                    bound,
                    child,
                );
                assert(node.children@.take(k as int).push(child) =~= node.children@.take(k + 1));
                match subtree_at(self.slots@, child) {
                    Some(ct) => {
                        assert(subtree_list(self.slots@, node.children@.take(k + 1), bound)
                            =~= subtree_list(
                            self.slots@,
                            node.children@.take(k as int),
                            bound,
                        ).push(ct));
                        lemma_render_seq_snoc(
                            subtree_list(self.slots@, node.children@.take(k as int), bound),
                            ct,
                        );
                    }
                    None => {
                        assert(subtree_list(self.slots@, node.children@.take(k + 1), bound)
                            == subtree_list(self.slots@, node.children@.take(k as int), bound) + Seq::<
                            TreeShape,
                        >::empty());
                        assert(subtree_list(self.slots@, node.children@.take(k + 1), bound)
                            =~= subtree_list(self.slots@, node.children@.take(k as int), bound));
                    }
                }
            }
            out.append(piece.as_str());
            proof {
                assert(out@ =~= render_seq(
                    subtree_list(self.slots@, node.children@.take(k + 1), bound),
                ));
            }
            k = k + 1;
        }
        proof {
            assert(node.children@.take(n as int) =~= node.children@);
        }
        out
    }

    /// Render the whole document: its root node and everything below
    /// it; an empty or rootless document renders as nothing.
    pub fn to_text(&self) -> (r: String)
        requires
            self.wf(),
        ensures
            r@ == match self.root {
                Some(h) => render_of(self.slots@, h),
                None => Seq::<char>::empty(),
            },
    {
        match self.root {
            Some(h) => self.render(h),
            None => String::new(),
        }
    }
}

/// Encode a front-matter block's properties in its own format.
fn encode_front_matter(fm: &FrontMatter) -> (r: String)
    ensures
        r@ == front_matter_text(*fm),
{
    match fm.format {
        FrontMatterFormat::Yaml => crate::codec::encode_yaml_map(&fm.properties),
        FrontMatterFormat::Toml => crate::codec::encode_toml_map(&fm.properties),
    }
}

} // verus!
