//! The virtual vault filesystem: path canonicalization with the
//! content-based symbolic-link convention, entry classification,
//! directory enumeration and recursive walk.
//!
//! The host filesystem enters as a value: a snapshot listing each host
//! path with what it holds. The functions here are verified over that
//! snapshot; reading the live filesystem into one is the thin unverified
//! boundary around the library.

use vstd::prelude::*;

use crate::emerald::Emerald;
use crate::path::{join_parts, slash_free, split_parts, Path};

verus! {

/// What one host path holds: a directory, or a regular file's text.
#[derive(Debug)]
pub enum HostData {
    Directory,
    Content(String),
}

/// One host filesystem entry: its full host path and what it holds.
#[derive(Debug)]
pub struct HostEntry {
    pub path: String,
    pub data: HostData,
}

/// A snapshot of the host filesystem region a vault lives in.
#[derive(Debug)]
pub struct HostFs {
    pub entries: Vec<HostEntry>,
}

/// A snapshot is well-formed when no host path occurs twice.
pub open spec fn fs_wf(entries: Seq<HostEntry>) -> bool {
    forall|i: int, j: int|
        0 <= i < j < entries.len() ==> (#[trigger] entries[i]).path@ != (
        #[trigger] entries[j]).path@
}

/// What the snapshot holds at host path `p`: the first entry with that
/// path, if any.
pub open spec fn lookup_spec(entries: Seq<HostEntry>, p: Seq<char>) -> Option<HostData>
    decreases entries.len(),
{
    if entries.len() == 0 {
        None
    } else if entries[0].path@ == p {
        Some(entries[0].data)
    } else {
        lookup_spec(entries.drop_first(), p)
    }
}

/// The three-byte content marker that makes a regular file a vault-level
/// symbolic link.
pub open spec fn has_link_marker(s: Seq<char>) -> bool {
    s.len() >= 3 && s[0] == '@' && s[1] == '/' && s[2] == '>'
}

/// The link's target: everything after the marker.
pub open spec fn link_target(s: Seq<char>) -> Seq<char> {
    s.skip(3)
}

/// Whether a file name marks vault content: it ends in the shard
/// extension after a non-empty stem.
pub open spec fn is_shard_name(name: Seq<char>) -> bool {
    name.len() > 3 && name.skip(name.len() as int - 3) == ".md"@
}

/// Classification of a file or directory.
/// Similar to the host's own file metadata, plus the vault's notions.
#[derive(Clone, Copy, Debug, PartialEq, Eq, Structural)]
pub struct Metadata {
    pub symlink: bool,
    pub shard: bool,
    pub file: bool,
    pub directory: bool,
}

impl Metadata {
    /// Whether the entry is a vault-level symbolic link.
    pub fn is_symlink(&self) -> (r: bool)
        ensures
            r == self.symlink,
    {
        self.symlink
    }

    /// Whether the entry is a shard: a vault content file.
    pub fn is_shard(&self) -> (r: bool)
        ensures
            r == self.shard,
    {
        self.shard
    }

    /// Whether the entry is a regular file.
    pub fn is_file(&self) -> (r: bool)
        ensures
            r == self.file,
    {
        self.file
    }

    /// Whether the entry is a directory.
    pub fn is_dir(&self) -> (r: bool)
        ensures
            r == self.directory,
    {
        self.directory
    }
}

/// The classification rule: a directory classifies directly; a file
/// whose name marks vault content is a shard; else a file whose first
/// three bytes are the link marker is a symbolic link; else a regular
/// file.
pub open spec fn classify_spec(name: Seq<char>, data: HostData) -> Metadata {
    match data {
        HostData::Directory => Metadata {
            symlink: false,
            shard: false,
            file: false,
            directory: true,
        },
        HostData::Content(text) => if is_shard_name(name) {
            Metadata { symlink: false, shard: true, file: true, directory: false }
        } else if has_link_marker(text@) {
            Metadata { symlink: true, shard: false, file: false, directory: false }
        } else {
            Metadata { symlink: false, shard: false, file: true, directory: false }
        },
    }
}

/// Entries returned when enumerating a directory: the entry's virtual
/// path and its classification.
#[derive(Debug)]
pub struct DirEntry {
    pub path: Path,
    pub metadata: Metadata,
}

impl DirEntry {
    /// Bind a virtual path to a classification.
    pub fn new(path: Path, metadata: Metadata) -> (r: Self)
        ensures
            r.path@ == path@,
            r.metadata == metadata,
    {
        DirEntry { path, metadata }
    }

    /// The entry's classification.
    pub fn metadata(&self) -> (r: &Metadata)
        ensures
            r == &self.metadata,
    {
        &self.metadata
    }

    /// The entry's virtual path.
    pub fn path(&self) -> (r: &Path)
        ensures
            r@ == self.path@,
    {
        &self.path
    }
}

/// A vault-level symbolic link: the link file's name and the host path
/// stored after its marker.
#[derive(Debug)]
pub struct Symlink {
    pub name: String,
    pub target: String,
}

impl Symlink {
    /// Whether file content is link-marked.
    pub fn is(content: &str) -> (r: bool)
        ensures
            r == has_link_marker(content@),
    {
        let n = content.unicode_len();
        n >= 3 && content.get_char(0) == '@' && content.get_char(1) == '/' && content.get_char(2)
            == '>'
    }

    /// Read a symbolic link out of a file's name and content: its
    /// target is everything after the marker. Content without the
    /// marker is no link.
    pub fn load_from_content(name: String, content: &str) -> (r: Option<Symlink>)
        ensures
            match r {
                Some(l) => has_link_marker(content@) && l.target@ == link_target(content@) && l.name@
                    == name@,
                None => !has_link_marker(content@),
            },
    {
        if Symlink::is(content) {
            let n = content.unicode_len();
            let target = content.substring_char(3, n).to_owned();
            proof {
                assert(target@ =~= link_target(content@));
            }
            Some(Symlink { name, target })
        } else {
            None
        }
    }

    /// The link's target host path.
    pub fn target(&self) -> (r: &str)
        ensures
            r@ == self.target@,
    {
        self.target.as_str()
    }
}

/// One canonicalization step's joining rule: an empty segment leaves
/// the running host path alone, as pushing an empty component does.
pub open spec fn host_join(base: Seq<char>, part: Seq<char>) -> Seq<char> {
    if part.len() == 0 {
        base
    } else {
        base + seq!['/'] + part
    }
}

/// The canonical host path of a virtual path, given as its segments:
/// consume segments left to right, requiring each running host path to
/// exist; after the final segment, a link-marked regular file redirects
/// to its stored target, once.
pub open spec fn canon_spec(entries: Seq<HostEntry>, cur: Seq<char>, parts: Seq<Seq<char>>) -> Option<
    Seq<char>,
>
    decreases parts.len(),
{
    if parts.len() == 0 {
        Some(cur)
    } else {
        let next = host_join(cur, parts[0]);
        match lookup_spec(entries, next) {
            None => None,
            Some(data) => if parts.len() == 1 {
                match data {
                    HostData::Content(text) => if has_link_marker(text@) {
                        Some(link_target(text@))
                    } else {
                        Some(next)
                    },
                    HostData::Directory => Some(next),
                }
            } else {
                canon_spec(entries, next, parts.drop_first())
            },
        }
    }
}

/// Whether host path `p` names a direct child of directory `d`, and
/// that child's name.
pub open spec fn is_child_path(p: Seq<char>, d: Seq<char>) -> bool {
    &&& p.len() > d.len() + 1
    &&& p.take(d.len() as int) == d
    &&& p[d.len() as int] == '/'
    &&& !p.skip(d.len() as int + 1).contains('/')
}

/// The name under which a direct child appears in its directory.
pub open spec fn child_name(p: Seq<char>, d: Seq<char>) -> Seq<char> {
    p.skip(d.len() as int + 1)
}

/// The directory listing of host directory `d`: one element per host
/// entry that is a direct child of `d`, in snapshot order, carrying the
/// child's name and its classification.
pub open spec fn listing(entries: Seq<HostEntry>, d: Seq<char>) -> Seq<(Seq<char>, Metadata)> {
    entries.filter(|e: HostEntry| is_child_path(e.path@, d)).map_values(
        |e: HostEntry| (child_name(e.path@, d), classify_spec(child_name(e.path@, d), e.data)),
    )
}

/// Listed names addressed under a virtual path: each name is appended
/// to the path with a separating slash.
pub open spec fn prefixed(vpath: Seq<char>, l: Seq<(Seq<char>, Metadata)>) -> Seq<
    (Seq<char>, Metadata),
> {
    l.map_values(|nm: (Seq<char>, Metadata)| (vpath + seq!['/'] + nm.0, nm.1))
}

/// The virtual-path and classification views of produced entries.
pub open spec fn entry_views(es: Seq<DirEntry>) -> Seq<(Seq<char>, Metadata)> {
    es.map_values(|e: DirEntry| (e.path@, e.metadata))
}

/// The host directory a canonical path enumerates: itself where it is a
/// directory; where it is link-marked content, the link's target, if
/// that target is a directory; nothing otherwise.
pub open spec fn enumerable_dir(entries: Seq<HostEntry>, canon: Seq<char>) -> Option<Seq<char>> {
    match lookup_spec(entries, canon) {
        Some(HostData::Directory) => Some(canon),
        Some(HostData::Content(text)) => if has_link_marker(text@) && lookup_spec(
            entries,
            link_target(text@),
        ) == Some(HostData::Directory) {
            Some(link_target(text@))
        } else {
            None
        },
        None => None,
    }
}

/// What enumerating a virtual path yields, given one segment
/// decomposition of it: the listing of the canonical host directory
/// (following one directory-link), each entry addressed under the
/// original virtual path.
pub open spec fn read_dir_spec(
    entries: Seq<HostEntry>,
    root: Seq<char>,
    parts: Seq<Seq<char>>,
    vpath: Seq<char>,
) -> Option<Seq<(Seq<char>, Metadata)>> {
    match canon_spec(entries, root, parts) {
        None => None,
        Some(canon) => match enumerable_dir(entries, canon) {
            None => None,
            Some(d) => Some(prefixed(vpath, listing(entries, d))),
        },
    }
}

impl HostFs {
    /// Find what the snapshot holds at a host path.
    pub fn lookup(&self, p: &String) -> (r: Option<&HostData>)
        ensures
            match r {
                Some(d) => lookup_spec(self.entries@, p@) == Some(*d),
                None => lookup_spec(self.entries@, p@) is None,
            },
    {
        let n = self.entries.len();
        let mut k: usize = 0;
        proof {
            assert(self.entries@.skip(0) =~= self.entries@);
        }
        while k < n
            invariant
                k <= n,
                n == self.entries@.len(),
                lookup_spec(self.entries@.skip(k as int), p@) == lookup_spec(self.entries@, p@),
            decreases n - k,
        {
            proof {
                assert(self.entries@.skip(k as int)[0] == self.entries@[k as int]);
                assert(self.entries@.skip(k as int).drop_first() =~= self.entries@.skip(
                    k as int + 1,
                ));
            }
            let e = &self.entries[k];
            if e.path.eq(p) {
                return Some(&e.data);
            }
            k = k + 1;
        }
        proof {
            assert(self.entries@.skip(n as int) =~= Seq::<HostEntry>::empty());
        }
        None
    }
}

/// Extend a running host path by one segment, per [`host_join`].
fn join_step(canon: String, part: &String) -> (r: String)
    ensures
        r@ == host_join(canon@, part@),
{
    let mut out = canon;
    if part.as_str().unicode_len() > 0 {
        out.append("/");
        proof {
            reveal_strlit("/");
            assert("/"@ =~= seq!['/']);
        }
        out.append(part.as_str());
        proof {
            assert(out@ =~= canon@ + seq!['/'] + part@);
        }
    }
    out
}

/// Classify one host entry from its name and what it holds, per the
/// extension-then-marker rule.
pub fn classify(name: &str, data: &HostData) -> (r: Metadata)
    ensures
        r == classify_spec(name@, *data),
{
    match data {
        HostData::Directory => Metadata { symlink: false, shard: false, file: false, directory: true },
        HostData::Content(text) => {
            let n = name.unicode_len();
            let shard_named = n > 3 && name.get_char(n - 3) == '.' && name.get_char(n - 2) == 'm'
                && name.get_char(n - 1) == 'd';
            proof {
                reveal_strlit(".md");
                if n > 3 {
                    assert(name@.skip(n as int - 3) =~= seq![
                        name@[n as int - 3],
                        name@[n as int - 2],
                        name@[n as int - 1],
                    ]);
                    assert(".md"@ =~= seq!['.', 'm', 'd']);
                }
                assert(shard_named == is_shard_name(name@));
            }
            if shard_named {
                Metadata { symlink: false, shard: true, file: true, directory: false }
            } else if Symlink::is(text.as_str()) {
                Metadata { symlink: true, shard: false, file: false, directory: false }
            } else {
                Metadata { symlink: false, shard: false, file: true, directory: false }
            }
        }
    }
}

/// Resolution over the segments themselves, as [`canonicalize`] uses
/// them.
fn canon_resolve(fs: &HostFs, jewel: &Emerald, ps: &Vec<String>) -> (r: Option<String>)
    requires
        ps@.len() >= 1,
    ensures
        match r {
            Some(c) => canon_spec(fs.entries@, jewel.spec_root(), ps.deep_view()) == Some(c@),
            None => canon_spec(fs.entries@, jewel.spec_root(), ps.deep_view()) is None,
        },
{
    let ghost dv = ps.deep_view();
    let n = ps.len();
    proof {
        assert(dv.len() == n);
    }
    let mut canon: String = jewel.get_root().to_owned();
    let mut k: usize = 0;
    proof {
        assert(dv.skip(0) =~= dv);
    }
    loop
        invariant
            n == ps@.len(),
            dv == ps.deep_view(),
            dv.len() == n,
            n >= 1,
            k < n,
            canon_spec(fs.entries@, jewel.spec_root(), dv) == canon_spec(
                fs.entries@,
                canon@,
                dv.skip(k as int),
            ),
        decreases n - k,
    {
        let ghost pre = canon@;
        let part = &ps[k];
        let next = join_step(canon, part);
        proof {
            assert(ps.deep_view()[k as int] == ps@[k as int]@);
            assert(dv.skip(k as int)[0] == dv[k as int]);
            assert(next@ == host_join(pre, dv.skip(k as int)[0]));
        }
        match fs.lookup(&next) {
            None => {
                return None;
            }
            Some(data) => {
                if k + 1 == n {
                    proof {
                        assert(dv.skip(k as int).len() == 1);
                    }
                    match data {
                        HostData::Content(text) => {
                            if Symlink::is(text.as_str()) {
                                let m = text.as_str().unicode_len();
                                let target = text.as_str().substring_char(3, m).to_owned();
                                proof {
                                    assert(target@ =~= link_target(text@));
                                }
                                return Some(target);
                            } else {
                                return Some(next);
                            }
                        }
                        HostData::Directory => {
                            return Some(next);
                        }
                    }
                } else {
                    proof {
                        assert(dv.skip(k as int).len() >= 2);
                        assert(dv.skip(k as int).drop_first() =~= dv.skip(k as int + 1));
                    }
                    canon = next;
                    k = k + 1;
                }
            }
        }
    }
}

/// Resolve a virtual path to its canonical host path over the snapshot:
/// consume segments left to right, probing the snapshot after each, and
/// follow a final link-marked file to its stored target, once. Fails
/// exactly where some intermediate host path is missing.
pub fn canonicalize(fs: &HostFs, jewel: &Emerald, path: &Path) -> (r: Option<String>)
    ensures
        forall|parts: Seq<Seq<char>>|
            parts.len() >= 1 && slash_free(parts) && join_parts(parts) == path@ ==> (match r {
                Some(c) => canon_spec(fs.entries@, jewel.spec_root(), parts) == Some(c@),
                None => canon_spec(fs.entries@, jewel.spec_root(), parts) is None,
            }),
{
    let ps = path.parts();
    let ghost dv = ps.deep_view();
    let r = canon_resolve(fs, jewel, &ps);
    proof {
        assert forall|parts: Seq<Seq<char>>|
            parts.len() >= 1 && slash_free(parts) && join_parts(parts) == path@ implies (match r {
            Some(c) => canon_spec(fs.entries@, jewel.spec_root(), parts) == Some(c@),
            None => canon_spec(fs.entries@, jewel.spec_root(), parts) is None,
        }) by {
            assert(dv.len() >= 1);
            assert(join_parts(dv) == path@);
            assert(slash_free(dv));
            crate::path::lemma_parts_unique(parts, dv);
        }
    }
    r
}

/// Whether `p` is a direct child of directory `d`, and under which
/// name.
fn child_name_of(p: &String, d: &String) -> (r: Option<String>)
    ensures
        match r {
            Some(name) => is_child_path(p@, d@) && name@ == child_name(p@, d@),
            None => !is_child_path(p@, d@),
        },
{
    let pl = p.as_str().unicode_len();
    let dl = d.as_str().unicode_len();
    if pl <= dl {
        return None;
    }
    if pl - dl < 2 {
        return None;
    }
    let mut i: usize = 0;
    while i < dl
        invariant
            i <= dl,
            dl == d@.len(),
            pl == p@.len(),
            pl - dl >= 2,
            forall|j: int| 0 <= j < i ==> p@[j] == d@[j],
        decreases dl - i,
    {
        if p.as_str().get_char(i) != d.as_str().get_char(i) {
            proof {
                assert(p@.take(dl as int) != d@) by {
                    assert(p@.take(dl as int)[i as int] == p@[i as int]);
                }
            }
            return None;
        }
        i = i + 1;
    }
    proof {
        assert(p@.take(dl as int) =~= d@);
    }
    if p.as_str().get_char(dl) != '/' {
        return None;
    }
    let name = p.as_str().substring_char(dl + 1, pl);
    proof {
        assert(name@ =~= p@.skip(dl as int + 1));
    }
    let nl = name.unicode_len();
    let mut j: usize = 0;
    while j < nl
        invariant
            j <= nl,
            nl == name@.len(),
            dl == d@.len(),
            name@ == p@.skip(dl as int + 1),
            forall|t: int| 0 <= t < j ==> name@[t] != '/',
        decreases nl - j,
    {
        if name.get_char(j) == '/' {
            proof {
                assert(p@.skip(dl as int + 1).contains('/')) by {
                    assert(p@.skip(dl as int + 1)[j as int] == '/');
                }
            }
            return None;
        }
        j = j + 1;
    }
    proof {
        assert(!p@.skip(dl as int + 1).contains('/')) by {
            if p@.skip(dl as int + 1).contains('/') {
                let w = choose|w: int|
                    0 <= w < p@.skip(dl as int + 1).len() && #[trigger] p@.skip(dl as int + 1)[w]
                        == '/';
                assert(name@[w] == '/');
            }
        }
    }
    Some(name.to_owned())
}

/// List the direct children of host directory `d`, each addressed under
/// the virtual path `vpath` and classified by the rule.
fn list_dir(fs: &HostFs, d: &String, vpath: &Path) -> (r: Vec<DirEntry>)
    ensures
        entry_views(r@) == prefixed(vpath@, listing(fs.entries@, d@)),
{
    let mut out: Vec<DirEntry> = Vec::new();
    let n = fs.entries.len();
    let mut k: usize = 0;
    proof {
        reveal(Seq::filter);
        assert(fs.entries@.take(0) =~= Seq::<HostEntry>::empty());
        assert(listing(fs.entries@.take(0), d@) =~= Seq::<(Seq<char>, Metadata)>::empty());
        assert(entry_views(out@) =~= prefixed(vpath@, listing(fs.entries@.take(0), d@)));
    }
    while k < n
        invariant
            k <= n,
            n == fs.entries@.len(),
            entry_views(out@) == prefixed(vpath@, listing(fs.entries@.take(k as int), d@)),
        decreases n - k,
    {
        let e = &fs.entries[k];
        let ghost pre_out = out@;
        let ghost fe = fs.entries@[k as int];
        let ghost nm = child_name(fe.path@, d@);
        match child_name_of(&e.path, d) {
            Some(name) => {
                let meta = classify(name.as_str(), &e.data);
                let mut p = vpath.clone();
                proof {
                    assert(name@ == nm);
                    assert(name@.len() > 0);
                    assert(name@[0] != '/') by {
                        if name@[0] == '/' {
                            assert(nm.contains('/')) by {
                                assert(nm[0] == '/');
                            }
                        }
                    }
                }
                p.append(name.as_str());
                proof {
                    assert(p@ == vpath@ + seq!['/'] + name@);
                }
                out.push(DirEntry { path: p, metadata: meta });
                proof {
                    assert(out@ =~= pre_out.push(out@.last()));
                    assert(out@.last().path@ == vpath@ + seq!['/'] + nm);
                    assert(out@.last().metadata == classify_spec(nm, fe.data));
                }
            }
            None => {}
        }
        proof {
            reveal(Seq::filter);
            let taken = fs.entries@.take(k as int);
            let taken1 = fs.entries@.take(k as int + 1);
            assert(taken1.drop_last() =~= taken);
            assert(taken1.last() == fe);
            let pred = |he: HostEntry| is_child_path(he.path@, d@);
            assert(taken1.filter(pred) == if pred(fe) {
                taken.filter(pred).push(fe)
            } else {
                taken.filter(pred)
            });
            if is_child_path(fe.path@, d@) {
                assert(listing(taken1, d@) =~= listing(taken, d@).push(
                    (nm, classify_spec(nm, fe.data)),
                ));
                assert(prefixed(vpath@, listing(taken1, d@)) =~= prefixed(
                    vpath@,
                    listing(taken, d@),
                ).push((vpath@ + seq!['/'] + nm, classify_spec(nm, fe.data))));
                assert(entry_views(out@) =~= entry_views(pre_out).push(
                    (vpath@ + seq!['/'] + nm, classify_spec(nm, fe.data)),
                ));
                assert(entry_views(out@) =~= prefixed(vpath@, listing(taken1, d@)));
            } else {
                assert(out@ == pre_out);
                assert(listing(taken1, d@) =~= listing(taken, d@));
                assert(entry_views(out@) =~= prefixed(vpath@, listing(taken1, d@)));
            }
        }
        k = k + 1;
    }
    proof {
        assert(fs.entries@.take(n as int) =~= fs.entries@);
    }
    out
}

/// Enumerate the entries of a directory-like virtual path: list the
/// canonical host directory's direct children, or, where the canonical
/// path is link-marked content naming a directory, that target's
/// children, still addressed under the original virtual path. Fails
/// where resolution fails or the path names neither a directory nor a
/// directory link.
pub fn read_dir(fs: &HostFs, jewel: &Emerald, path: &Path) -> (r: Option<Vec<DirEntry>>)
    ensures
        forall|parts: Seq<Seq<char>>|
            parts.len() >= 1 && slash_free(parts) && join_parts(parts) == path@ ==> (match r {
                Some(v) => read_dir_spec(fs.entries@, jewel.spec_root(), parts, path@) == Some(
                    entry_views(v@),
                ),
                None => read_dir_spec(fs.entries@, jewel.spec_root(), parts, path@) is None,
            }),
{
    let canon = match canonicalize(fs, jewel, path) {
        Some(c) => c,
        None => {
            return None;
        }
    };
    let dir: String = match fs.lookup(&canon) {
        Some(HostData::Directory) => canon,
        Some(HostData::Content(text)) => {
            if Symlink::is(text.as_str()) {
                let m = text.as_str().unicode_len();
                let target = text.as_str().substring_char(3, m).to_owned();
                proof {
                    assert(target@ =~= link_target(text@));
                }
                match fs.lookup(&target) {
                    Some(HostData::Directory) => target,
                    _ => {
                        return None;
                    }
                }
            } else {
                return None;
            }
        }
        None => {
            return None;
        }
    };
    Some(list_dir(fs, &dir, path))
}

/// A recursive, single-pass walk over the vault below one directory. It
/// yields one entry at a time from a pending stack, expanding
/// directories and directory-links as they are taken. Every entry an
/// expansion pushes is addressed strictly below the entry it came from
/// ([`lemma_read_dir_paths_extend`]); over a snapshot without
/// link-marked content the pending paths therefore range over the
/// snapshot's finitely many host paths, and the walk runs out. Only
/// cyclic links can make it endless, which is why the bounded drivers
/// take a step budget.
#[derive(Debug)]
pub struct Walk {
    pub queue: Vec<DirEntry>,
}

impl Walk {
    /// Start a walk: the pending stack is seeded with the entries of the
    /// starting directory. Fails exactly where that enumeration fails.
    pub fn new(fs: &HostFs, jewel: &Emerald, path: &Path) -> (r: Option<Walk>)
        ensures
            forall|parts: Seq<Seq<char>>|
                parts.len() >= 1 && slash_free(parts) && join_parts(parts) == path@ ==> (match r {
                    Some(w) => read_dir_spec(fs.entries@, jewel.spec_root(), parts, path@) == Some(
                        entry_views(w.queue@),
                    ),
                    None => read_dir_spec(fs.entries@, jewel.spec_root(), parts, path@) is None,
                }),
    {
        match read_dir(fs, jewel, path) {
            Some(entries) => Some(Walk { queue: entries }),
            None => None,
        }
    }

    /// Take one step of the walk: pop the most recent pending entry,
    /// push the entries under it where it is a directory or a symbolic
    /// link (silently skipping one whose enumeration fails), and yield
    /// it. Yields `None` exactly when nothing is pending.
    pub fn next(&mut self, fs: &HostFs, jewel: &Emerald) -> (r: Option<DirEntry>)
        ensures
            match r {
                None => old(self).queue@.len() == 0 && final(self).queue@ == old(self).queue@,
                Some(e) => {
                    let rest = old(self).queue@.drop_last();
                    let popped = old(self).queue@.last();
                    &&& old(self).queue@.len() > 0
                    &&& e.path@ == popped.path@
                    &&& e.metadata == popped.metadata
                    &&& if e.metadata.directory || e.metadata.symlink {
                        forall|parts: Seq<Seq<char>>|
                            parts.len() >= 1 && slash_free(parts) && join_parts(parts) == e.path@
                                ==> (match read_dir_spec(
                                fs.entries@,
                                jewel.spec_root(),
                                parts,
                                e.path@,
                            ) {
                                Some(es) => entry_views(final(self).queue@) == entry_views(rest)
                                    + es,
                                None => final(self).queue@ == rest,
                            })
                    } else {
                        final(self).queue@ == rest
                    }
                },
            },
    {
        let entry = match self.queue.pop() {
            Some(e) => e,
            None => {
                return None;
            }
        };
        if entry.metadata.directory || entry.metadata.symlink {
            match read_dir(fs, jewel, &entry.path) {
                Some(mut more) => {
                    let ghost rest = self.queue@;
                    let ghost added = more@;
                    self.queue.append(&mut more);
                    proof {
                        assert(entry_views(self.queue@) =~= entry_views(rest) + entry_views(added));
                    }
                }
                None => {}
            }
        }
        Some(entry)
    }
}

/// The host path reached after consuming the first `k` segments: the
/// root joined with each of them in turn.
pub open spec fn joined_prefix(root: Seq<char>, parts: Seq<Seq<char>>, k: int) -> Seq<char>
    decreases k,
{
    if k <= 0 {
        root
    } else {
        host_join(joined_prefix(root, parts, k - 1), parts[k - 1])
    }
}

proof fn lemma_joined_shift(root: Seq<char>, parts: Seq<Seq<char>>, k: int)
    requires
        parts.len() >= 1,
        0 <= k <= parts.len() - 1,
    ensures
        joined_prefix(host_join(root, parts[0]), parts.drop_first(), k) == joined_prefix(
            root,
            parts,
            k + 1,
        ),
    decreases k,
{
    assert(joined_prefix(root, parts, 0) == root);
    assert(joined_prefix(host_join(root, parts[0]), parts.drop_first(), 0) == host_join(
        root,
        parts[0],
    ));
    if k == 0 {
        assert(joined_prefix(root, parts, 1) == host_join(joined_prefix(root, parts, 0), parts[0]));
    } else {
        lemma_joined_shift(root, parts, k - 1);
        assert(parts.drop_first()[k - 1] == parts[k]);
    }
}

/// Canonicalization law: over a snapshot where every intermediate host
/// path of a virtual path exists, resolution succeeds and gives exactly
/// the root joined with the path's segments — unless the final segment
/// names link-marked content, in which case it gives that file's stored
/// target text.
pub proof fn lemma_canonicalize_existing(
    entries: Seq<HostEntry>,
    root: Seq<char>,
    parts: Seq<Seq<char>>,
)
    requires
        parts.len() >= 1,
        forall|k: int|
            1 <= k <= parts.len() ==> lookup_spec(
                entries,
                #[trigger] joined_prefix(root, parts, k),
            ) is Some,
    ensures
        ({
            let full = joined_prefix(root, parts, parts.len() as int);
            canon_spec(entries, root, parts) == (match lookup_spec(entries, full) {
                Some(HostData::Content(text)) => if has_link_marker(text@) {
                    Some(link_target(text@))
                } else {
                    Some(full)
                },
                _ => Some(full),
            })
        }),
    decreases parts.len(),
{
    let next = host_join(root, parts[0]);
    assert(joined_prefix(root, parts, 0) == root);
    assert(joined_prefix(root, parts, 1) == host_join(joined_prefix(root, parts, 0), parts[0]));
    assert(joined_prefix(root, parts, 1) == next);
    assert(lookup_spec(entries, joined_prefix(root, parts, 1)) is Some);
    if parts.len() == 1 {
    } else {
        let tail = parts.drop_first();
        assert forall|k: int|
            1 <= k <= tail.len() implies lookup_spec(
            entries,
            #[trigger] joined_prefix(next, tail, k),
        ) is Some by {
            lemma_joined_shift(root, parts, k);
            assert(lookup_spec(entries, joined_prefix(root, parts, k + 1)) is Some);
        }
        lemma_canonicalize_existing(entries, next, tail);
        lemma_joined_shift(root, parts, parts.len() - 1);
        assert(joined_prefix(next, tail, tail.len() as int) == joined_prefix(
            root,
            parts,
            parts.len() as int,
        ));
    }
}

/// Directory-symlink transparency law: where one virtual path resolves
/// to a link-marked file whose stored target is a directory, and another
/// virtual path resolves to that directory itself, enumerating the two
/// yields the same children — same names, same classifications, in the
/// same order — each still addressed under its own virtual path.
pub proof fn lemma_link_dir_transparency(
    entries: Seq<HostEntry>,
    root: Seq<char>,
    parts_l: Seq<Seq<char>>,
    vp_l: Seq<char>,
    parts_d: Seq<Seq<char>>,
    vp_d: Seq<char>,
    link: Seq<char>,
    text: Seq<char>,
)
    requires
        canon_spec(entries, root, parts_l) == Some(link),
        lookup_spec(entries, link) matches Some(HostData::Content(t)) && t@ == text,
        has_link_marker(text),
        lookup_spec(entries, link_target(text)) == Some(HostData::Directory),
        canon_spec(entries, root, parts_d) == Some(link_target(text)),
    ensures
        read_dir_spec(entries, root, parts_l, vp_l) == Some(
            prefixed(vp_l, listing(entries, link_target(text))),
        ),
        read_dir_spec(entries, root, parts_d, vp_d) == Some(
            prefixed(vp_d, listing(entries, link_target(text))),
        ),
        ({
            let names = listing(entries, link_target(text));
            let ll = read_dir_spec(entries, root, parts_l, vp_l).unwrap();
            let ld = read_dir_spec(entries, root, parts_d, vp_d).unwrap();
            &&& ll.len() == ld.len()
            &&& forall|i: int|
                0 <= i < ll.len() ==> (#[trigger] ll[i]).1 == ld[i].1 && ll[i].0 == vp_l
                    + seq!['/'] + names[i].0 && ld[i].0 == vp_d + seq!['/'] + names[i].0
        }),
{
    let target = link_target(text);
    assert(enumerable_dir(entries, link) == Some(target));
    assert(enumerable_dir(entries, target) == Some(target));
    let names = listing(entries, target);
    assert forall|i: int|
        0 <= i < prefixed(vp_l, names).len() implies (#[trigger] prefixed(vp_l, names)[i]).1
        == prefixed(vp_d, names)[i].1 && prefixed(vp_l, names)[i].0 == vp_l + seq!['/'] + names[i].0
        && prefixed(vp_d, names)[i].0 == vp_d + seq!['/'] + names[i].0 by {}
}

/// A child path is its directory joined with its name.
proof fn lemma_child_path_shape(p: Seq<char>, d: Seq<char>)
    requires
        is_child_path(p, d),
    ensures
        p == d + seq!['/'] + child_name(p, d),
{
    assert(p =~= d + seq!['/'] + child_name(p, d)) by {
        assert(forall|i: int| 0 <= i < d.len() ==> p[i] == p.take(d.len() as int)[i]);
    }
}

/// No-aliasing law, across directories: a host path is the direct child
/// of at most one directory, so no walk step can reach one host entry
/// from two different directories.
pub proof fn lemma_child_parent_unique(p: Seq<char>, d1: Seq<char>, d2: Seq<char>)
    requires
        is_child_path(p, d1),
        is_child_path(p, d2),
    ensures
        d1 == d2,
{
    if d1.len() < d2.len() {
        assert(p.skip(d1.len() as int + 1).contains('/')) by {
            assert(p.skip(d1.len() as int + 1)[d2.len() - d1.len() - 1] == p[d2.len() as int]);
            assert(p[d2.len() as int] == '/');
        }
        assert(false);
    }
    if d2.len() < d1.len() {
        assert(p.skip(d2.len() as int + 1).contains('/')) by {
            assert(p.skip(d2.len() as int + 1)[d1.len() - d2.len() - 1] == p[d1.len() as int]);
            assert(p[d1.len() as int] == '/');
        }
        assert(false);
    }
    assert(d1 =~= d2) by {
        assert(forall|i: int| 0 <= i < d1.len() ==> p.take(d1.len() as int)[i] == p[i]);
        assert(forall|i: int| 0 <= i < d2.len() ==> p.take(d2.len() as int)[i] == p[i]);
    }
}

/// Some entry of the snapshot has host path `p`.
pub open spec fn has_path(entries: Seq<HostEntry>, p: Seq<char>) -> bool {
    exists|t: int| 0 <= t < entries.len() && (#[trigger] entries[t].path@) == p
}

/// Every listed name reconstructs, under its directory, to a host path
/// the snapshot has.
proof fn lemma_listing_sources(entries: Seq<HostEntry>, d: Seq<char>)
    ensures
        forall|i: int|
            #![trigger listing(entries, d)[i]]
            0 <= i < listing(entries, d).len() ==> has_path(
                entries,
                d + seq!['/'] + listing(entries, d)[i].0,
            ),
    decreases entries.len(),
{
    reveal(Seq::filter);
    let pred = |he: HostEntry| is_child_path(he.path@, d);
    if entries.len() == 0 {
        assert(entries.filter(pred) =~= entries);
        assert(listing(entries, d).len() == 0);
    } else {
        let prior = entries.drop_last();
        lemma_listing_sources(prior, d);
        let last = entries.last();
        assert(entries.filter(pred) == if pred(last) {
            prior.filter(pred).push(last)
        } else {
            prior.filter(pred)
        });
        assert forall|i: int|
            #![trigger listing(entries, d)[i]]
            0 <= i < listing(entries, d).len() implies has_path(
            entries,
            d + seq!['/'] + listing(entries, d)[i].0,
        ) by {
            if i < listing(prior, d).len() {
                assert(listing(entries, d)[i] == listing(prior, d)[i]);
                assert(has_path(prior, d + seq!['/'] + listing(prior, d)[i].0));
                let t = choose|t: int|
                    0 <= t < prior.len() && (#[trigger] prior[t].path@) == d + seq!['/'] + listing(
                        prior,
                        d,
                    )[i].0;
                assert(entries[t].path@ == d + seq!['/'] + listing(entries, d)[i].0);
            } else {
                let t = entries.len() - 1;
                assert(listing(entries, d)[i].0 == child_name(last.path@, d));
                lemma_child_path_shape(last.path@, d);
                assert(entries[t].path@ == d + seq!['/'] + listing(entries, d)[i].0);
            }
        }
    }
}

/// Exactly-once law, within a directory: over a snapshot without
/// duplicate host paths, a directory's listing carries pairwise
/// distinct names — each host child is enumerated exactly once.
pub proof fn lemma_listing_names_distinct(entries: Seq<HostEntry>, d: Seq<char>)
    requires
        fs_wf(entries),
    ensures
        forall|i: int, j: int|
            0 <= i < j < listing(entries, d).len() ==> (#[trigger] listing(entries, d)[i]).0 != (
            #[trigger] listing(entries, d)[j]).0,
    decreases entries.len(),
{
    reveal(Seq::filter);
    let pred = |he: HostEntry| is_child_path(he.path@, d);
    if entries.len() == 0 {
        assert(entries.filter(pred) =~= entries);
        assert(listing(entries, d).len() == 0);
    } else {
        let prior = entries.drop_last();
        assert(fs_wf(prior)) by {
            assert(forall|i: int| 0 <= i < prior.len() ==> prior[i] == entries[i]);
        }
        lemma_listing_names_distinct(prior, d);
        lemma_listing_sources(prior, d);
        let last = entries.last();
        assert(entries.filter(pred) == if pred(last) {
            prior.filter(pred).push(last)
        } else {
            prior.filter(pred)
        });
        assert forall|i: int, j: int|
            0 <= i < j < listing(entries, d).len() implies (#[trigger] listing(entries, d)[i]).0
            != (#[trigger] listing(entries, d)[j]).0 by {
            if j < listing(prior, d).len() {
                assert(listing(entries, d)[i] == listing(prior, d)[i]);
                assert(listing(entries, d)[j] == listing(prior, d)[j]);
            } else {
                // j names the newly listed child; an earlier equal name
                // would reconstruct the same host path at an earlier
                // entry, against the snapshot's uniqueness
                assert(pred(last));
                assert(listing(entries, d)[i] == listing(prior, d)[i]);
                assert(listing(entries, d)[j].0 == child_name(last.path@, d));
                if listing(prior, d)[i].0 == child_name(last.path@, d) {
                    assert(has_path(prior, d + seq!['/'] + listing(prior, d)[i].0));
                    let t = choose|t: int|
                        0 <= t < prior.len() && (#[trigger] prior[t].path@) == d + seq!['/']
                            + listing(prior, d)[i].0;
                    lemma_child_path_shape(last.path@, d);
                    assert(entries[t].path@ == entries[entries.len() - 1].path@);
                    assert(false);
                }
            }
        }
    }
}

/// Completeness law, within a directory: every host entry that is a
/// direct child of a directory appears in that directory's listing,
/// under its own name and with its classification. Together with
/// [`lemma_listing_names_distinct`] and [`lemma_child_parent_unique`],
/// enumerating a directory yields each of its host children exactly
/// once, and never an entry of another directory.
pub proof fn lemma_listing_complete(entries: Seq<HostEntry>, d: Seq<char>, t: int)
    requires
        0 <= t < entries.len(),
        is_child_path(entries[t].path@, d),
    ensures
        exists|i: int|
            0 <= i < listing(entries, d).len() && #[trigger] listing(entries, d)[i] == (
                child_name(entries[t].path@, d),
                classify_spec(child_name(entries[t].path@, d), entries[t].data),
            ),
{
    let pred = |he: HostEntry| is_child_path(he.path@, d);
    entries.lemma_filter_contains(pred, t);
    let filtered = entries.filter(pred);
    let j = choose|j: int| 0 <= j < filtered.len() && #[trigger] filtered[j] == entries[t];
    assert(listing(entries, d)[j] == (
        child_name(entries[t].path@, d),
        classify_spec(child_name(entries[t].path@, d), entries[t].data),
    ));
}

/// A path strictly below `d`, across a separator: `d` plus a slash
/// plus a non-empty remainder (which may hold further separators).
pub open spec fn is_under(p: Seq<char>, d: Seq<char>) -> bool {
    &&& p.len() > d.len() + 1
    &&& p.take(d.len() as int) == d
    &&& p[d.len() as int] == '/'
}

/// The walk's termination measure, stated: every entry that enumerating
/// a virtual path yields is addressed strictly below that path, so each
/// pending path of a walk strictly extends the path it was enqueued
/// under. Over a snapshot without link-marked content, every such
/// virtual path mirrors a host path of the snapshot, of which there are
/// finitely many.
pub proof fn lemma_read_dir_paths_extend(
    entries: Seq<HostEntry>,
    root: Seq<char>,
    parts: Seq<Seq<char>>,
    vpath: Seq<char>,
)
    requires
        read_dir_spec(entries, root, parts, vpath) is Some,
    ensures
        forall|i: int|
            0 <= i < read_dir_spec(entries, root, parts, vpath).unwrap().len() ==> is_under(
                (#[trigger] read_dir_spec(entries, root, parts, vpath).unwrap()[i]).0,
                vpath,
            ),
{
    let canon = canon_spec(entries, root, parts).unwrap();
    let d = enumerable_dir(entries, canon).unwrap();
    let l = listing(entries, d);
    let es = read_dir_spec(entries, root, parts, vpath).unwrap();
    assert(es == prefixed(vpath, l));
    let pred = |he: HostEntry| is_child_path(he.path@, d);
    assert forall|i: int| 0 <= i < es.len() implies is_under((#[trigger] es[i]).0, vpath) by {
        entries.lemma_filter_pred(pred, i);
        let name = l[i].0;
        assert(name == child_name(entries.filter(pred)[i].path@, d));
        assert(is_child_path(entries.filter(pred)[i].path@, d));
        assert(name.len() >= 1);
        assert(es[i].0 == vpath + seq!['/'] + name);
        assert(es[i].0.len() == vpath.len() + 1 + name.len());
        assert(es[i].0.take(vpath.len() as int) =~= vpath) by {
            assert(forall|k: int|
                0 <= k < vpath.len() ==> (vpath + seq!['/'] + name)[k] == vpath[k]);
        }
        assert(es[i].0[vpath.len() as int] == '/');
    }
}

/// One spec-level step of the walk over entry views: the most recent
/// pending entry is taken; where it is a directory or a symbolic link,
/// its own enumeration is appended, or silently skipped where that
/// enumeration fails.
pub open spec fn walk_step_spec(
    entries: Seq<HostEntry>,
    root: Seq<char>,
    q: Seq<(Seq<char>, Metadata)>,
) -> (Seq<(Seq<char>, Metadata)>, Option<(Seq<char>, Metadata)>) {
    if q.len() == 0 {
        (q, None::<(Seq<char>, Metadata)>)
    } else {
        let e = q.last();
        let rest = q.drop_last();
        if e.1.directory || e.1.symlink {
            match read_dir_spec(entries, root, split_parts(e.0), e.0) {
                Some(es) => (rest + es, Some(e)),
                None => (rest, Some(e)),
            }
        } else {
            (rest, Some(e))
        }
    }
}

/// The entries a walk yields from the pending views `q` within `steps`
/// steps, in order.
pub open spec fn walk_trace(
    entries: Seq<HostEntry>,
    root: Seq<char>,
    q: Seq<(Seq<char>, Metadata)>,
    steps: nat,
) -> Seq<(Seq<char>, Metadata)>
    decreases steps,
{
    if steps == 0 {
        Seq::empty()
    } else {
        let (q2, taken) = walk_step_spec(entries, root, q);
        match taken {
            None => Seq::empty(),
            Some(e) => seq![e] + walk_trace(entries, root, q2, (steps - 1) as nat),
        }
    }
}

/// Walk from a directory to all its descendants.
pub fn walk(fs: &HostFs, jewel: &Emerald, path: &Path) -> (r: Option<Walk>)
    ensures
        forall|parts: Seq<Seq<char>>|
            parts.len() >= 1 && slash_free(parts) && join_parts(parts) == path@ ==> (match r {
                Some(w) => read_dir_spec(fs.entries@, jewel.spec_root(), parts, path@) == Some(
                    entry_views(w.queue@),
                ),
                None => read_dir_spec(fs.entries@, jewel.spec_root(), parts, path@) is None,
            }),
{
    Walk::new(fs, jewel, path)
}

} // verus!
