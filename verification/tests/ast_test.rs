use emerald::arena::{Ast, AstNode, NodeHandle};
use emerald::node::{FrontMatterFormat, Heading, NodeAttributes, NodeType};
use emerald::shard::Shard;
use emerald::value::{Datum, Scalar};
use emerald::walker::WalkerMode;

fn leafless(attrs: NodeAttributes, children: Vec<NodeHandle>) -> AstNode {
    AstNode { span: None, children, attributes: attrs }
}

#[test]
fn arena_insert_get_remove() {
    let mut ast = Ast::new();
    let a = ast.insert_node(leafless(NodeAttributes::Text("hi".to_string()), vec![]));
    let b = ast.insert_node(leafless(NodeAttributes::Paragraph, vec![a]));
    assert_eq!(ast.get(b).unwrap().get_type(), NodeType::Paragraph);
    assert_eq!(ast.get(a).unwrap().get_type(), NodeType::Text);
    // a freed handle resolves to nothing, and every copy of it stays stale
    let copy = a;
    let taken = ast.remove(a);
    assert!(taken.is_some());
    assert!(ast.get(a).is_none());
    assert!(ast.get(copy).is_none());
    // freeing again changes nothing
    assert!(ast.remove(a).is_none());
}

fn three_level_ast() -> Ast {
    let mut ast = Ast::new();
    let grandchild = ast.insert_node(leafless(NodeAttributes::Text("deep".to_string()), vec![]));
    let child1 = ast.insert_node(leafless(NodeAttributes::Paragraph, vec![grandchild]));
    let child2 = ast.insert_node(leafless(NodeAttributes::ThematicBreak, vec![]));
    let root = ast.insert_node(leafless(NodeAttributes::Root, vec![child1, child2]));
    ast.root = Some(root);
    ast
}

#[test]
fn walker_depth_zero_yields_only_root() {
    let ast = three_level_ast();
    let mut w = ast.walk_ref().max_depth(0);
    let (_, first) = w.next().unwrap();
    assert_eq!(first.get_type(), NodeType::Root);
    assert!(w.next().is_none());
}

#[test]
fn walker_depth_one_stops_before_grandchildren() {
    let ast = three_level_ast();
    let mut w = ast.walk_ref().max_depth(1);
    let mut kinds: Vec<NodeType> = Vec::new();
    while let Some((_, node)) = w.next() {
        kinds.push(node.get_type());
    }
    assert_eq!(kinds, vec![NodeType::Root, NodeType::Paragraph, NodeType::ThematicBreak]);
}

#[test]
fn walker_breadth_and_depth_order() {
    let ast = three_level_ast();
    let mut breadth = ast.walk_ref();
    let mut order_b: Vec<NodeType> = Vec::new();
    while let Some((_, node)) = breadth.next() {
        order_b.push(node.get_type());
    }
    assert_eq!(
        order_b,
        vec![NodeType::Root, NodeType::Paragraph, NodeType::ThematicBreak, NodeType::Text],
    );
    let mut depth = ast.walk_ref().mode(WalkerMode::Depth);
    let mut order_d: Vec<NodeType> = Vec::new();
    while let Some((_, node)) = depth.next() {
        order_d.push(node.get_type());
    }
    assert_eq!(
        order_d,
        vec![NodeType::Root, NodeType::ThematicBreak, NodeType::Paragraph, NodeType::Text],
    );
}

#[test]
fn walker_prune_withholds_subtree_but_not_siblings() {
    let ast = three_level_ast();
    let mut w = ast.walk_ref();
    let mut kinds: Vec<NodeType> = Vec::new();
    // prune paragraphs: their descendants stay unexplored, their
    // siblings walk on
    while let Some((h, depth, node)) = w.take_next() {
        let t = node.get_type();
        kinds.push(t);
        if t != NodeType::Paragraph {
            w.expand(h, depth);
        }
    }
    assert_eq!(kinds, vec![NodeType::Root, NodeType::Paragraph, NodeType::ThematicBreak]);
}

#[test]
fn display_ast() {
    let content = "---
title: My shard
date: 01/01/01
---

# Heading
This is a content [property:: value]
";
    let ast = Ast::from_str(content).unwrap();
    let text = ast.to_text();
    assert!(text.starts_with("---\n"));
    assert!(text.contains("# Heading"));
}

#[test]
fn debug_ast() {
    let content = "---
title: My shard
date: 01/01/01
---

# Heading
This is a content [property:: value]
";
    let ast = Ast::from_str(content).unwrap();
    let rendered = format!("{:#?}", ast);
    assert!(rendered.contains("Heading"));
}

#[test]
fn concrete_document_shape() {
    // front matter, a heading, and a checkable task item
    let content = "---
title: X
---
# H
- [ ] task
";
    let ast = Ast::from_str(content).unwrap();
    let root = ast.root.unwrap();
    let root_node = ast.get(root).unwrap();
    assert_eq!(root_node.get_type(), NodeType::Root);
    let kids: Vec<NodeType> =
        root_node.children.iter().map(|&h| ast.get(h).unwrap().get_type()).collect();
    assert_eq!(kids, vec![NodeType::FrontMatter, NodeType::Heading, NodeType::List]);

    let fm = ast.get(root_node.children[0]).unwrap();
    match fm.get_attributes() {
        NodeAttributes::FrontMatter(f) => {
            assert!(matches!(f.format, FrontMatterFormat::Yaml));
            assert_eq!(f.properties.len(), 1);
            assert_eq!(f.properties[0].0, "title");
            assert!(matches!(&f.properties[0].1, Datum::Text(t) if t == "X"));
        }
        other => panic!("expected front matter, got {:?}", other),
    }

    let heading = ast.get(root_node.children[1]).unwrap();
    match heading.get_attributes() {
        NodeAttributes::Heading(Heading { depth }) => assert_eq!(*depth, 1),
        other => panic!("expected heading, got {:?}", other),
    }

    let list = ast.get(root_node.children[2]).unwrap();
    assert_eq!(list.children.len(), 1);
    let item = ast.get(list.children[0]).unwrap();
    match item.get_attributes() {
        NodeAttributes::ListItem(li) => assert_eq!(li.checked, Some(false)),
        other => panic!("expected list item, got {:?}", other),
    }
}

#[test]
fn lenient_conversion_drops_bad_front_matter() {
    let content = "---\ntitle: [broken\n---\n# H\n";
    let ast = Ast::from_str(content).unwrap();
    let root = ast.root.unwrap();
    let kids: Vec<NodeType> =
        ast.get(root).unwrap().children.iter().map(|&h| ast.get(h).unwrap().get_type()).collect();
    // the undecodable front-matter node is silently dropped, its
    // sibling stays
    assert_eq!(kids, vec![NodeType::Heading]);
}

#[test]
fn strict_conversion_rejects_bad_front_matter() {
    let bad = "---\ntitle: [broken\n---\n# H\n";
    assert!(Ast::from_str_strict(bad).is_none());
    let good = "---\ntitle: X\n---\n# H\n";
    let ast = Ast::from_str_strict(good).unwrap();
    assert!(ast.root.is_some());
}

#[test]
fn render_round_trip_reparses_identically() {
    // only kinds whose rendering reproduces their source shape
    let content = "# Title\nHello *world* and **bold** text\n";
    let first = Ast::from_str(content).unwrap();
    let once = first.to_text();
    let second = Ast::from_str(once.as_str()).unwrap();
    let twice = second.to_text();
    assert_eq!(once, twice);
}

#[test]
fn render_exact_pieces() {
    let mut ast = Ast::new();
    let txt = ast.insert_node(leafless(NodeAttributes::Text("x".to_string()), vec![]));
    let strong = ast.insert_node(leafless(NodeAttributes::Strong, vec![txt]));
    assert_eq!(ast.render(strong), "**x**");
    let txt2 = ast.insert_node(leafless(NodeAttributes::Text("t".to_string()), vec![]));
    let h = ast.insert_node(
        leafless(NodeAttributes::Heading(Heading { depth: 3 }), vec![txt2]),
    );
    assert_eq!(ast.render(h), "### t");
    let code = ast.insert_node(leafless(
        NodeAttributes::Code(emerald::node::Code {
            value: "let x;".to_string(),
            lang: Some("rust".to_string()),
            meta: None,
        }),
        vec![],
    ));
    assert_eq!(ast.render(code), "```rust \nlet x;\n```");
    let quoted_text =
        ast.insert_node(leafless(NodeAttributes::Text("a\nb".to_string()), vec![]));
    let quote = ast.insert_node(leafless(NodeAttributes::BlockQuote, vec![quoted_text]));
    assert_eq!(ast.render(quote), "\n> a\n> b");
}

#[test]
fn render_front_matter_block() {
    let mut ast = Ast::new();
    let fm = ast.insert_node(leafless(
        NodeAttributes::FrontMatter(emerald::node::FrontMatter {
            format: FrontMatterFormat::Yaml,
            properties: vec![
                ("title".to_string(), Datum::Text("X".to_string())),
                ("n".to_string(), Datum::Number(Scalar::Integer(3))),
            ],
        }),
        vec![],
    ));
    let out = ast.render(fm);
    assert_eq!(out, "---\ntitle: X\nn: 3\n---\n");
}

#[test]
fn render_toml_front_matter_block() {
    let mut ast = Ast::new();
    let fm = ast.insert_node(leafless(
        NodeAttributes::FrontMatter(emerald::node::FrontMatter {
            format: FrontMatterFormat::Toml,
            properties: vec![("title".to_string(), Datum::Text("X".to_string()))],
        }),
        vec![],
    ));
    let out = ast.render(fm);
    assert_eq!(out, "---\ntitle = \"X\"\n---\n");
}

#[test]
fn fork_copies_subtree_without_touching_source() {
    let ast = three_level_ast();
    let root = ast.root.unwrap();
    let child1 = ast.get(root).unwrap().children[0];
    let copy = ast.fork(child1);
    let copy_root = copy.root.unwrap();
    assert_eq!(copy.get(copy_root).unwrap().get_type(), NodeType::Paragraph);
    assert_eq!(copy.render(copy_root), ast.render(child1));
    // the source graph still resolves everything
    assert!(ast.get(child1).is_some());
    assert_eq!(ast.render(root), "deep***\n");
    assert_eq!(ast.render(child1), "deep");
}

#[test]
fn shard_walks_its_graph() {
    let shard = Shard::from_str("# H\nbody\n").unwrap();
    let mut w = shard.walk_ref();
    let mut count = 0;
    while let Some(_) = w.next() {
        count += 1;
    }
    // root, heading, heading text, paragraph, paragraph text
    assert_eq!(count, 5);
}
