//! Where the files of images are found.

use vstd::prelude::*;

verus! {

/// Finds images among the local files below a root.
#[derive(Clone, Debug, PartialEq, Eq)]
pub struct LocalImageSourceResolver {
    root: String,
}

impl LocalImageSourceResolver {
    /// The path of the directory below which the files are found.
    pub closed spec fn spec_root(self) -> Seq<char> {
        self.root@
    }

    /// The resolver for the files below `path`.
    pub fn new(path: &str) -> (resolver: LocalImageSourceResolver)
        ensures
            resolver.spec_root() == path@,
    {
        LocalImageSourceResolver { root: path.to_owned() }
    }

    /// The path of the directory below which the files are found.
    pub fn root(&self) -> (path: &str)
        ensures
            path@ == self.spec_root(),
    {
        self.root.as_str()
    }
}

} // verus!
