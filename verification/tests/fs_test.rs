use emerald::emerald::Emerald;
use emerald::fs::{canonicalize, read_dir, walk, HostData, HostEntry, HostFs, Symlink};
use emerald::path::Path;

fn vault() -> HostFs {
    HostFs {
        entries: vec![
            HostEntry { path: "jewel".to_string(), data: HostData::Directory },
            HostEntry {
                path: "jewel/index.md".to_string(),
                data: HostData::Content("# Index\n".to_string()),
            },
            HostEntry {
                path: "jewel/notes".to_string(),
                data: HostData::Directory,
            },
            HostEntry {
                path: "jewel/notes/todo.md".to_string(),
                data: HostData::Content("- [ ] task\n".to_string()),
            },
            HostEntry {
                path: "jewel/raw.txt".to_string(),
                data: HostData::Content("plain".to_string()),
            },
            HostEntry {
                path: "jewel/shortcut".to_string(),
                data: HostData::Content("@/>jewel/notes".to_string()),
            },
        ],
    }
}

#[test]
fn test_valid_canonicalize() {
    let fs = vault();
    let jewel = Emerald::new("jewel".to_string());
    let local_path = Path::new("/index.md").unwrap();
    let canon = canonicalize(&fs, &jewel, &local_path).unwrap();
    assert_eq!(canon, "jewel/index.md");
}

#[test]
fn test_valid_read_dir() {
    let fs = vault();
    let jewel = Emerald::new("jewel".to_string());
    let entries = read_dir(&fs, &jewel, &Path::default()).unwrap();
    assert_eq!(entries.len(), 4);
}

#[test]
fn canonicalize_missing_component_fails() {
    let fs = vault();
    let jewel = Emerald::new("jewel".to_string());
    let local_path = Path::new("/absent/index.md").unwrap();
    assert!(canonicalize(&fs, &jewel, &local_path).is_none());
}

#[test]
fn canonicalize_follows_final_link() {
    let fs = vault();
    let jewel = Emerald::new("jewel".to_string());
    let local_path = Path::new("/shortcut").unwrap();
    let canon = canonicalize(&fs, &jewel, &local_path).unwrap();
    assert_eq!(canon, "jewel/notes");
}

#[test]
fn read_dir_classifies_by_rule() {
    let fs = vault();
    let jewel = Emerald::new("jewel".to_string());
    let entries = read_dir(&fs, &jewel, &Path::default()).unwrap();
    let mut seen_shard = false;
    let mut seen_dir = false;
    let mut seen_file = false;
    let mut seen_link = false;
    for e in &entries {
        let text = e.path().as_text().to_string();
        let m = e.metadata();
        match text.as_str() {
            "/index.md" => {
                assert!(m.is_shard() && m.is_file() && !m.is_dir() && !m.is_symlink());
                seen_shard = true;
            }
            "/notes" => {
                assert!(m.is_dir() && !m.is_file() && !m.is_shard() && !m.is_symlink());
                seen_dir = true;
            }
            "/raw.txt" => {
                assert!(m.is_file() && !m.is_shard() && !m.is_dir() && !m.is_symlink());
                seen_file = true;
            }
            "/shortcut" => {
                assert!(m.is_symlink() && !m.is_file() && !m.is_dir() && !m.is_shard());
                seen_link = true;
            }
            other => panic!("unexpected entry {}", other),
        }
    }
    assert!(seen_shard && seen_dir && seen_file && seen_link);
}

#[test]
fn read_dir_through_directory_link() {
    let fs = vault();
    let jewel = Emerald::new("jewel".to_string());
    let under_link = read_dir(&fs, &jewel, &Path::new("/shortcut").unwrap()).unwrap();
    let direct = read_dir(&fs, &jewel, &Path::new("/notes").unwrap()).unwrap();
    assert_eq!(under_link.len(), direct.len());
    assert_eq!(under_link.len(), 1);
    assert_eq!(under_link[0].path().as_text(), "/shortcut/todo.md");
    assert_eq!(direct[0].path().as_text(), "/notes/todo.md");
    assert_eq!(under_link[0].metadata(), direct[0].metadata());
}

#[test]
fn walk_yields_every_entry_once() {
    // a vault with 3 files and 1 directory below the root: the walk must
    // yield exactly those 4 entries, each once
    let fs = HostFs {
        entries: vec![
            HostEntry { path: "jewel".to_string(), data: HostData::Directory },
            HostEntry {
                path: "jewel/a.md".to_string(),
                data: HostData::Content("a".to_string()),
            },
            HostEntry { path: "jewel/sub".to_string(), data: HostData::Directory },
            HostEntry {
                path: "jewel/sub/b.md".to_string(),
                data: HostData::Content("b".to_string()),
            },
            HostEntry {
                path: "jewel/sub/c.txt".to_string(),
                data: HostData::Content("c".to_string()),
            },
        ],
    };
    let jewel = Emerald::new("jewel".to_string());
    let mut w = walk(&fs, &jewel, &Path::default()).unwrap();
    let mut seen: Vec<String> = Vec::new();
    while let Some(entry) = w.next(&fs, &jewel) {
        seen.push(entry.path().as_text().to_string());
    }
    seen.sort();
    assert_eq!(seen, vec!["/a.md", "/sub", "/sub/b.md", "/sub/c.txt"]);
}

#[test]
fn open_shard_reads_through_resolution() {
    let fs = vault();
    let jewel = Emerald::new("jewel".to_string());
    let shard = emerald::shard::open_shard(&fs, &jewel, &Path::new("/index.md").unwrap()).unwrap();
    assert!(shard.ast.root.is_some());
    assert_eq!(shard.ast.to_text(), "# Index");
    // a directory is no shard source
    assert!(emerald::shard::open_shard(&fs, &jewel, &Path::new("/notes").unwrap()).is_none());
    // a missing path fails resolution
    assert!(emerald::shard::open_shard(&fs, &jewel, &Path::new("/absent.md").unwrap()).is_none());
}

#[test]
fn walk_shards_parses_every_shard() {
    let fs = vault();
    let jewel = Emerald::new("jewel".to_string());
    let shards = emerald::shard::walk_shards(&fs, &jewel, 64);
    // index.md at the root and todo.md below notes; the copy listed
    // through the directory link is enumerated but not openable, since
    // resolution follows a link only at the final segment
    assert_eq!(shards.len(), 2);
    // an exhausted budget truncates instead of hanging
    assert_eq!(emerald::shard::walk_shards(&fs, &jewel, 0).len(), 0);
}

#[test]
fn symlink_content_parsing() {
    assert!(Symlink::is("@/>somewhere"));
    assert!(!Symlink::is("@/ >not"));
    assert!(!Symlink::is("@>"));
    let l = Symlink::load_from_content("name".to_string(), "@/>target/dir").unwrap();
    assert_eq!(l.target(), "target/dir");
    assert!(Symlink::load_from_content("name".to_string(), "plain text").is_none());
}

#[test]
fn path_parts_and_append() {
    let mut p = Path::new("/a/b").unwrap();
    p.append("c");
    assert_eq!(p.as_text(), "/a/b/c");
    p.append("/d");
    assert_eq!(p.as_text(), "/a/b/c/d");
    let parts = p.parts();
    let texts: Vec<&str> = parts.iter().map(|s| s.as_str()).collect();
    assert_eq!(texts, vec!["", "a", "b", "c", "d"]);
}
