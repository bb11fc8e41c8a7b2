//! The jewel: a vault handle that walks every file below its root.

use vstd::prelude::*;

use crate::emerald::Emerald;
use crate::fs::{entry_views, read_dir_spec, HostFs, Walk};
use crate::path::{join_parts, slash_free, Path};

verus! {

/// A vault handle rooted at a host directory. Checking that the root
/// exists and is a directory is the caller's I/O.
#[derive(Debug)]
pub struct Jewel {
    root: String,
}

impl Jewel {
    /// Wrap a host directory path as a jewel.
    pub fn new(root: String) -> (r: Jewel)
        ensures
            r.spec_root() == root@,
    {
        Jewel { root }
    }

    /// The jewel's root host path.
    pub closed spec fn spec_root(&self) -> Seq<char> {
        self.root@
    }

    /// Walk over all files within the jewel, from its root directory.
    pub fn walk(&self, fs: &HostFs) -> (r: Option<Walk>)
        ensures
            forall|parts: Seq<Seq<char>>|
                parts.len() >= 1 && slash_free(parts) && join_parts(parts) == Seq::<char>::empty()
                    ==> (match r {
                    Some(w) => read_dir_spec(
                        fs.entries@,
                        self.spec_root(),
                        parts,
                        Seq::<char>::empty(),
                    ) == Some(entry_views(w.queue@)),
                    None => read_dir_spec(
                        fs.entries@,
                        self.spec_root(),
                        parts,
                        Seq::<char>::empty(),
                    ) is None,
                }),
    {
        let emerald = Emerald::new(self.root.clone());
        let path = Path::default();
        crate::fs::walk(fs, &emerald, &path)
    }
}

} // verus!
