//! A shard: one parsed document within a vault, binding the text it was
//! read from to its document graph.

use vstd::prelude::*;

pub use crate::value::{Datum, Scalar};

use crate::arena::{subtree_at, Ast};
use crate::convert::converted_tree;
use crate::emerald::Emerald;
use crate::fs::{
    canon_spec, canonicalize, entry_views, lookup_spec, read_dir_spec, walk, walk_step_spec,
    walk_trace, HostData, HostEntry, HostFs, Metadata,
};
use crate::parse::parsed_doc_of;
use crate::path::{join_parts, lemma_split_parts_valid, slash_free, split_parts, Path};
use crate::walker::{Cursor, RefWalker, WalkerMode};

verus! {

/// What binds a shard to the text it was read from: the text parses,
/// and the shard's graph holds exactly the converted parse — its root
/// points at it, unless the whole conversion failed.
pub open spec fn shard_of_text(shard: Shard, text: Seq<char>) -> bool {
    &&& parsed_doc_of(text) is Some
    &&& shard.ast.wf()
    &&& match shard.ast.root {
        Some(h) => converted_tree(parsed_doc_of(text).unwrap()) is Some && shard.ast.valid_handle(
            h,
        ) && subtree_at(shard.ast.slots@, h) == converted_tree(parsed_doc_of(text).unwrap()),
        None => converted_tree(parsed_doc_of(text).unwrap()) is None,
    }
}

/// Whether a shard faithfully holds the converted parse of some text:
/// what every shard the vault hands out satisfies.
pub open spec fn from_some_text(shard: Shard) -> bool {
    exists|text: Seq<char>| shard_of_text(shard, text)
}

/// A piece of data within a vault: one document's graph.
#[derive(Debug)]
pub struct Shard {
    /// The shard's document graph.
    pub ast: Ast,
}

/// A chapter of a shard: a named section; it carries no data of its
/// own yet.
#[derive(Debug)]
pub struct Chapter {}

/// A checkable task found in a shard: where it came from, its own
/// content as a forked subtree, and the tasks nested below it.
pub struct Task {
    /// Source of the task.
    pub src: crate::path::Path,
    /// Content.
    pub item: Ast,
    /// Sub-tasks.
    pub subtasks: Vec<Task>,
}

impl Shard {
    /// Parse one document's text into a shard. Yields `None` exactly
    /// where the parser rejects the text; a front-matter block that
    /// fails to decode only drops its own node.
    pub fn from_str(s: &str) -> (r: Option<Shard>)
        ensures
            match r {
                Some(shard) => shard_of_text(shard, s@),
                None => parsed_doc_of(s@) is None,
            },
    {
        match Ast::from_str(s) {
            Some(ast) => Some(Shard { ast }),
            None => None,
        }
    }

    /// Walk the shard's document graph from its root.
    pub fn walk_ref(&self) -> (r: RefWalker<'_>)
        requires
            self.ast.wf(),
        ensures
            r.inv(),
            r.ast == &self.ast,
            r.mode == WalkerMode::Breadth,
            r.max_depth == -1isize,
            match self.ast.root {
                Some(h) => r.queue@ == seq![Cursor { depth: 0, index: h }],
                None => r.queue@.len() == 0,
            },
    {
        self.ast.walk_ref()
    }
}

/// Open one shard through the vault's path resolution: resolve the
/// virtual path, read the regular file it names out of the snapshot,
/// and parse it. Fails exactly where resolution fails, where the
/// canonical path is no regular file, or where the parser rejects the
/// text.
pub fn open_shard(fs: &HostFs, emerald: &Emerald, path: &Path) -> (r: Option<Shard>)
    ensures
        r matches Some(shard) ==> from_some_text(shard),
        forall|parts: Seq<Seq<char>>|
            parts.len() >= 1 && slash_free(parts) && join_parts(parts) == path@ ==> (match
                canon_spec(fs.entries@, emerald.spec_root(), parts) {
                Some(c) => match lookup_spec(fs.entries@, c) {
                    Some(HostData::Content(text)) => match r {
                        Some(shard) => shard_of_text(shard, text@),
                        None => parsed_doc_of(text@) is None,
                    },
                    _ => r is None,
                },
                None => r is None,
            }),
{
    let canon = match canonicalize(fs, emerald, path) {
        Some(c) => c,
        None => {
            return None;
        }
    };
    match fs.lookup(&canon) {
        Some(HostData::Content(text)) => {
            let r = Shard::from_str(text.as_str());
            proof {
                if r is Some {
                    assert(shard_of_text(r.unwrap(), text@));
                    assert(from_some_text(r.unwrap()));
                }
            }
            r
        }
        _ => None,
    }
}

/// The text a virtual path opens as a shard: its canonical host path
/// holds a regular file whose text parses. Exactly where [`open_shard`]
/// succeeds.
pub open spec fn shard_text_at(entries: Seq<HostEntry>, root: Seq<char>, vp: Seq<char>) -> Option<
    Seq<char>,
> {
    match canon_spec(entries, root, split_parts(vp)) {
        Some(c) => match lookup_spec(entries, c) {
            Some(HostData::Content(text)) => if parsed_doc_of(text@) is Some {
                Some(text@)
            } else {
                None
            },
            _ => None,
        },
        None => None,
    }
}

/// The texts of the shards a walk trace opens: one per yielded entry
/// classified as a shard whose open-and-parse succeeds, in walk order;
/// the others are silently skipped, the engine's lenient policy.
pub open spec fn shard_texts_of_trace(
    entries: Seq<HostEntry>,
    root: Seq<char>,
    trace: Seq<(Seq<char>, Metadata)>,
) -> Seq<Seq<char>>
    decreases trace.len(),
{
    if trace.len() == 0 {
        Seq::empty()
    } else {
        let e = trace[0];
        let rest = shard_texts_of_trace(entries, root, trace.drop_first());
        if e.1.shard {
            match shard_text_at(entries, root, e.0) {
                Some(text) => seq![text] + rest,
                None => rest,
            }
        } else {
            rest
        }
    }
}

/// The texts of the shards a whole bounded walk of the vault opens:
/// the trace starts from the root directory's enumeration.
pub open spec fn walked_shard_texts(entries: Seq<HostEntry>, root: Seq<char>, steps: nat) -> Seq<
    Seq<char>,
> {
    match read_dir_spec(entries, root, split_parts(Seq::empty()), Seq::empty()) {
        Some(q0) => shard_texts_of_trace(entries, root, walk_trace(entries, root, q0, steps)),
        None => Seq::empty(),
    }
}

/// Every shard below the vault root, parsed, visiting at most `steps`
/// entries: the step budget makes the walk total even over a vault
/// whose links cycle. The result is exactly one shard per entry the
/// bounded walk yields that is classified as a shard and whose
/// open-and-parse succeeds, in walk order, each holding the converted
/// parse of that file's snapshot text; the other entries are silently
/// skipped.
#[verifier::rlimit(30)]
pub fn walk_shards(fs: &HostFs, emerald: &Emerald, steps: usize) -> (r: Vec<Shard>)
    ensures
        r@.len() <= steps,
        ({
            let texts = walked_shard_texts(fs.entries@, emerald.spec_root(), steps as nat);
            &&& r@.len() == texts.len()
            &&& forall|i: int| 0 <= i < r@.len() ==> shard_of_text(#[trigger] r@[i], texts[i])
        }),
{
    let ghost entries = fs.entries@;
    let ghost root = emerald.spec_root();
    let ghost total = walked_shard_texts(entries, root, steps as nat);
    let mut out: Vec<Shard> = Vec::new();
    let root_path = Path::default();
    proof {
        lemma_split_parts_valid(Seq::empty());
    }
    let mut w = match walk(fs, emerald, &root_path) {
        Some(w) => w,
        None => {
            proof {
                assert(read_dir_spec(entries, root, split_parts(Seq::empty()), Seq::empty())
                    is None);
                assert(total =~= Seq::<Seq<char>>::empty());
            }
            return out;
        }
    };
    let ghost mut texts_done: Seq<Seq<char>> = Seq::empty();
    let mut used: usize = 0;
    proof {
        assert(read_dir_spec(entries, root, split_parts(Seq::empty()), Seq::empty()) == Some(
            entry_views(w.queue@),
        ));
        assert(total =~= texts_done + shard_texts_of_trace(
            entries,
            root,
            walk_trace(entries, root, entry_views(w.queue@), (steps - used) as nat),
        ));
    }
    while used < steps
        invariant
            out@.len() <= used <= steps,
            entries == fs.entries@,
            root == emerald.spec_root(),
            total == walked_shard_texts(entries, root, steps as nat),
            out@.len() == texts_done.len(),
            forall|i: int|
                0 <= i < out@.len() ==> shard_of_text(#[trigger] out@[i], texts_done[i]),
            total == texts_done + shard_texts_of_trace(
                entries,
                root,
                walk_trace(entries, root, entry_views(w.queue@), (steps - used) as nat),
            ),
        decreases steps - used,
    {
        let ghost g_q = w.queue@;
        let ghost q_pre = entry_views(g_q);
        let ghost m = (steps - used) as nat;
        match w.next(fs, emerald) {
            Some(entry) => {
                let ghost e = (entry.path@, entry.metadata);
                proof {
                    assert(g_q.len() > 0);
                    assert(q_pre[q_pre.len() - 1] == (
                        g_q[g_q.len() - 1].path@,
                        g_q[g_q.len() - 1].metadata,
                    ));
                    assert(q_pre.last() == e);
                    assert(entry_views(g_q.drop_last()) =~= q_pre.drop_last());
                    lemma_split_parts_valid(e.0);
                    assert(walk_step_spec(entries, root, q_pre) == (
                        entry_views(w.queue@),
                        Some(e),
                    ));
                    assert(walk_trace(entries, root, q_pre, m) == seq![e] + walk_trace(
                        entries,
                        root,
                        entry_views(w.queue@),
                        (m - 1) as nat,
                    ));
                    assert(walk_trace(entries, root, q_pre, m)[0] == e);
                    assert(walk_trace(entries, root, q_pre, m).drop_first() =~= walk_trace(
                        entries,
                        root,
                        entry_views(w.queue@),
                        (m - 1) as nat,
                    ));
                }
                let ghost head_texts: Seq<Seq<char>> = (
                if e.1.shard {
                    match shard_text_at(entries, root, e.0) {
                        Some(text) => seq![text],
                        None => Seq::empty(),
                    }
                } else {
                    Seq::empty()
                });
                proof {
                    assert(shard_texts_of_trace(entries, root, walk_trace(entries, root, q_pre, m))
                        =~= head_texts + shard_texts_of_trace(
                        entries,
                        root,
                        walk_trace(entries, root, entry_views(w.queue@), (m - 1) as nat),
                    ));
                    assert(total =~= (texts_done + head_texts) + shard_texts_of_trace(
                        entries,
                        root,
                        walk_trace(entries, root, entry_views(w.queue@), (m - 1) as nat),
                    ));
                }
                if entry.metadata().is_shard() {
                    let r_shard = open_shard(fs, emerald, entry.path());
                    proof {
                        match shard_text_at(entries, root, e.0) {
                            Some(text) => {
                                assert(r_shard matches Some(shard) && shard_of_text(shard, text));
                            }
                            None => {
                                assert(r_shard is None);
                            }
                        }
                    }
                    match r_shard {
                        Some(shard) => {
                            let ghost g_shard = shard;
                            let ghost pre_out = out@;
                            let ghost pre_texts = texts_done;
                            let ghost text = shard_text_at(entries, root, e.0).unwrap();
                            out.push(shard);
                            proof {
                                texts_done = texts_done.push(text);
                                assert(head_texts =~= seq![text]);
                                assert(texts_done =~= pre_texts + head_texts);
                                assert(out@[out@.len() - 1] == g_shard);
                                assert forall|i: int|
                                    0 <= i < out@.len() implies shard_of_text(
                                    #[trigger] out@[i],
                                    texts_done[i],
                                ) by {
                                    if i < pre_out.len() {
                                        assert(out@[i] == pre_out[i]);
                                        assert(texts_done[i] == pre_texts[i]);
                                    } else {
                                        assert(out@[i] == g_shard);
                                        assert(texts_done[i] == text);
                                    }
                                }
                            }
                        }
                        None => {
                            proof {
                                assert(head_texts =~= Seq::<Seq<char>>::empty());
                                assert(texts_done + head_texts =~= texts_done);
                            }
                        }
                    }
                } else {
                    proof {
                        assert(!e.1.shard);
                        assert(head_texts =~= Seq::<Seq<char>>::empty());
                        assert(texts_done + head_texts =~= texts_done);
                    }
                }
            }
            None => {
                proof {
                    assert(q_pre.len() == 0);
                    assert(walk_trace(entries, root, q_pre, m) =~= Seq::<
                        (Seq<char>, Metadata),
                    >::empty());
                    assert(total =~= texts_done);
                }
                return out;
            }
        }
        used = used + 1;
    }
    proof {
        assert(walk_trace(entries, root, entry_views(w.queue@), 0) =~= Seq::<
            (Seq<char>, Metadata),
        >::empty());
        assert(total =~= texts_done);
    }
    out
}

} // verus!
