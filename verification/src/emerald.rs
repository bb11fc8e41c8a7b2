//! The vault object: a root host directory path, immutable once made.

use vstd::prelude::*;

verus! {

/// A vault, named by the host directory it is rooted at. Checking that
/// the root exists and is a directory is the caller's I/O; the value
/// itself only carries the path.
#[derive(Debug)]
pub struct Emerald {
    root: String,
}

impl Emerald {
    /// Wrap a host directory path as a vault root.
    pub fn new(root: String) -> (r: Emerald)
        ensures
            r.spec_root() == root@,
    {
        Emerald { root }
    }

    /// The vault's root host path.
    pub closed spec fn spec_root(&self) -> Seq<char> {
        self.root@
    }

    /// The vault's root host path.
    pub fn get_root(&self) -> (r: &str)
        ensures
            r@ == self.spec_root(),
    {
        self.root.as_str()
    }
}

impl Clone for Emerald {
    fn clone(&self) -> (r: Self)
        ensures
            r.spec_root() == self.spec_root(),
    {
        Emerald { root: self.root.clone() }
    }
}

} // verus!
