use emerald::codec::{decode_toml, decode_yaml, encode_toml, encode_yaml};
use emerald::header::Header;
use emerald::raw::{RawKind, RawNode};
use emerald::value::{Datum, Scalar};
use emerald::writer::{Frame, TableCellFrame, TableFrame, TableRowFrame, TextFrame};

#[test]
fn yaml_round_trip_keeps_order_and_kind() {
    let text = "zeta: 1\nalpha: two\nratio: 1.5\nflag: true\n";
    let first = decode_yaml(text).unwrap();
    let keys: Vec<String> = match &first {
        Datum::Mapping(entries) => entries.iter().map(|(k, _)| k.clone()).collect(),
        other => panic!("expected a mapping, got {:?}", other),
    };
    assert_eq!(keys, vec!["zeta", "alpha", "ratio", "flag"]);
    let encoded = encode_yaml(&first);
    let second = decode_yaml(encoded.as_str()).unwrap();
    match (&first, &second) {
        (Datum::Mapping(a), Datum::Mapping(b)) => {
            assert_eq!(a.len(), b.len());
            for ((ka, va), (kb, vb)) in a.iter().zip(b.iter()) {
                assert_eq!(ka, kb);
                match (va, vb) {
                    (Datum::Number(Scalar::Integer(x)), Datum::Number(Scalar::Integer(y))) => {
                        assert_eq!(x, y)
                    }
                    (Datum::Number(Scalar::Float(x)), Datum::Number(Scalar::Float(y))) => {
                        assert_eq!(x, y)
                    }
                    (Datum::Text(x), Datum::Text(y)) => assert_eq!(x, y),
                    (Datum::Boolean(x), Datum::Boolean(y)) => assert_eq!(x, y),
                    other => panic!("kind changed in round trip: {:?}", other),
                }
            }
        }
        other => panic!("expected mappings, got {:?}", other),
    }
}

#[test]
fn yaml_scalar_kinds() {
    let v = decode_yaml("i: 7\nf: 2.25\ns: word\nb: false\nn: null\n").unwrap();
    match v {
        Datum::Mapping(entries) => {
            assert!(matches!(entries[0].1, Datum::Number(Scalar::Integer(7))));
            assert!(matches!(&entries[1].1, Datum::Number(Scalar::Float(t)) if t == "2.25"));
            assert!(matches!(&entries[2].1, Datum::Text(t) if t == "word"));
            assert!(matches!(entries[3].1, Datum::Boolean(false)));
            assert!(matches!(entries[4].1, Datum::Null));
        }
        other => panic!("expected a mapping, got {:?}", other),
    }
}

#[test]
fn yaml_whole_number_float_keeps_kind() {
    // a float that happens to be whole must stay a float through the
    // round trip, never collapse to an integer
    let v = decode_yaml("w: 1.0\n").unwrap();
    match &v {
        Datum::Mapping(e) => {
            assert!(matches!(&e[0].1, Datum::Number(Scalar::Float(t)) if t == "1.0"))
        }
        other => panic!("expected a mapping, got {:?}", other),
    }
    let encoded = encode_yaml(&v);
    assert_eq!(encoded, "w: 1.0\n");
    let again = decode_yaml(encoded.as_str()).unwrap();
    match &again {
        Datum::Mapping(e) => {
            assert!(matches!(&e[0].1, Datum::Number(Scalar::Float(t)) if t == "1.0"))
        }
        other => panic!("expected a mapping, got {:?}", other),
    }
}

#[test]
fn yaml_non_finite_floats_keep_kind() {
    let v = decode_yaml("a: .nan\nb: .inf\nc: -.inf\n").unwrap();
    match &v {
        Datum::Mapping(e) => {
            assert!(matches!(&e[0].1, Datum::Number(Scalar::Float(t)) if t == ".nan"));
            assert!(matches!(&e[1].1, Datum::Number(Scalar::Float(t)) if t == ".inf"));
            assert!(matches!(&e[2].1, Datum::Number(Scalar::Float(t)) if t == "-.inf"));
        }
        other => panic!("expected a mapping, got {:?}", other),
    }
    let encoded = encode_yaml(&v);
    let again = decode_yaml(encoded.as_str()).unwrap();
    match &again {
        Datum::Mapping(e) => {
            assert!(matches!(&e[0].1, Datum::Number(Scalar::Float(t)) if t == ".nan"));
            assert!(matches!(&e[1].1, Datum::Number(Scalar::Float(t)) if t == ".inf"));
            assert!(matches!(&e[2].1, Datum::Number(Scalar::Float(t)) if t == "-.inf"));
        }
        other => panic!("expected a mapping, got {:?}", other),
    }
}

#[test]
fn toml_whole_number_float_keeps_kind() {
    let v = decode_toml("x = 1.0\n").unwrap();
    match &v {
        Datum::Mapping(e) => {
            assert!(matches!(&e[0].1, Datum::Number(Scalar::Float(t)) if t == "1.0"))
        }
        other => panic!("expected a mapping, got {:?}", other),
    }
    let encoded = encode_toml(&v);
    assert_eq!(encoded, "x = 1.0\n");
    let again = decode_toml(encoded.as_str()).unwrap();
    match &again {
        Datum::Mapping(e) => {
            assert!(matches!(&e[0].1, Datum::Number(Scalar::Float(t)) if t == "1.0"))
        }
        other => panic!("expected a mapping, got {:?}", other),
    }
}

#[test]
fn yaml_malformed_decodes_to_none() {
    assert!(decode_yaml("a: [unclosed").is_none());
}

#[test]
fn toml_round_trip() {
    let text = "title = \"X\"\ncount = 4\nshare = 0.5\n";
    let first = decode_toml(text).unwrap();
    let encoded = encode_toml(&first);
    let second = decode_toml(encoded.as_str()).unwrap();
    match (&first, &second) {
        (Datum::Mapping(a), Datum::Mapping(b)) => {
            let keys: Vec<&str> = a.iter().map(|(k, _)| k.as_str()).collect();
            assert_eq!(keys, vec!["title", "count", "share"]);
            assert_eq!(a.len(), b.len());
            for ((ka, _), (kb, _)) in a.iter().zip(b.iter()) {
                assert_eq!(ka, kb);
            }
        }
        other => panic!("expected mappings, got {:?}", other),
    }
    assert!(decode_toml("= nonsense").is_none());
}

#[test]
fn header_from_frontmatter_node() {
    let raw = RawNode {
        kind: RawKind::Yaml("title: X".to_string()),
        children: vec![],
        span: None,
    };
    let h = Header::from_frontmatter(Some(&raw)).unwrap();
    match h.0 {
        Datum::Mapping(entries) => {
            assert_eq!(entries.len(), 1);
            assert_eq!(entries[0].0, "title");
        }
        other => panic!("expected a mapping, got {:?}", other),
    }
    let not_yaml = RawNode { kind: RawKind::Paragraph, children: vec![], span: None };
    assert!(Header::from_frontmatter(Some(&not_yaml)).is_none());
    assert!(Header::from_frontmatter(None).is_none());
}

#[test]
fn frames_measure_and_fit() {
    let mut line = TextFrame::new("hello".to_string());
    line.fit();
    assert_eq!(line.frame.content, (5, 1));
    assert_eq!(line.frame.outer(), (5, 1));

    let mut wide = TextFrame::new("abc".to_string());
    wide.fit();
    let mut cell = TableCellFrame::new(vec![line, wide]);
    cell.fit();
    // widths add, heights take the maximum
    assert_eq!(cell.frame.content, (8, 1));

    let mut other = TableCellFrame::new(vec![]);
    other.fit();
    assert_eq!(other.frame.content, (0, 0));

    let mut row = TableRowFrame::new(vec![cell, other]);
    row.layout();
    assert_eq!(row.frame.content, (8, 1));

    let mut table = TableFrame::new(vec![row, TableRowFrame::new(vec![])]);
    assert_eq!(table.dimensions(), (2, 2));
    let columns = table.iter_columns();
    assert_eq!(columns.len(), 2);
    // column widths come from the rows that reach each column, in order
    assert_eq!(columns[0], vec![8]);
    assert_eq!(columns[1], vec![0]);
    table.layout();
    assert_eq!(table.children.len(), 2);
    // layout left every row's cells in place
    assert_eq!(table.children[0].children.len(), 2);
    assert_eq!(table.children[1].children.len(), 0);
    assert_eq!(table.children[0].frame.content, (8, 1));

    let boxed = Frame { content: (2, 3), border: (1, 1) };
    assert_eq!(boxed.outer(), (3, 4));
}
