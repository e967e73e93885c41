use vstd::prelude::*;

use crate::path::{join_path, joined_path};

verus! {

/// Details for a library artifact: where it is built and installed, as
/// components under the source and the install directories.
#[derive(Debug)]
pub struct ArtifactLib {
    pub item_in_src: Vec<String>,
    pub item_in_bin: Vec<String>,
}

/// Details for a binary artifact: where it is built, as components under the
/// source directory.
#[derive(Debug)]
pub struct ArtifactBin {
    pub item_in_src: Vec<String>,
}

/// A directory extended by components, each joined in turn.
pub open spec fn extended_path(base: Seq<char>, items: Seq<String>) -> Seq<char>
    decreases items.len(),
{
    if items.len() == 0 {
        base
    } else {
        joined_path(extended_path(base, items.drop_last()), items.last()@)
    }
}

/// A directory extended by components (see [`extended_path`]).
pub fn extend_path(base: &str, items: &Vec<String>) -> (r: String)
    ensures
        r@ == extended_path(base@, items@),
{
    let mut path = base.to_owned();
    let mut i: usize = 0;
    assert(items@.take(0) =~= Seq::<String>::empty());
    while i < items.len()
        invariant
            i <= items@.len(),
            path@ == extended_path(base@, items@.take(i as int)),
        decreases items@.len() - i,
    {
        proof {
            assert(items@.take(i + 1).drop_last() =~= items@.take(i as int));
        }
        path = join_path(path.as_str(), items[i].as_str());
        i = i + 1;
    }
    assert(items@.take(items@.len() as int) =~= items@);
    path
}

impl ArtifactLib {
    /// Where the library is installed.
    pub fn install_path(&self, path_bin: &str) -> (r: String)
        ensures
            r@ == extended_path(path_bin@, self.item_in_bin@),
    {
        extend_path(path_bin, &self.item_in_bin)
    }

    /// Where the library is built.
    pub fn build_path(&self, path_src: &str) -> (r: String)
        ensures
            r@ == extended_path(path_src@, self.item_in_src@),
    {
        extend_path(path_src, &self.item_in_src)
    }
}

impl ArtifactBin {
    /// Where the binary is built.
    pub fn build_path(&self, path_src: &str) -> (r: String)
        ensures
            r@ == extended_path(path_src@, self.item_in_src@),
    {
        extend_path(path_src, &self.item_in_src)
    }
}

} // verus!
