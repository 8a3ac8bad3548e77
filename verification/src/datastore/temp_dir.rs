//! Temporary directories.

use vstd::prelude::*;

verus! {

/// A temporary directory, which its owner removes in the end unless told not to.
pub struct TempDir {
    directory: String,
    delete_on_drop: bool,
}

impl TempDir {
    /// Path of the directory.
    pub closed spec fn path_spec(&self) -> Seq<char> {
        self.directory@
    }

    /// Whether the directory is removed in the end.
    pub closed spec fn deletes(&self) -> bool {
        self.delete_on_drop
    }

    /// Takes over a directory that was just created.
    pub fn new_in(directory: String) -> (r: TempDir)
        ensures
            r.path_spec() == directory@,
            r.deletes(),
    {
        TempDir { directory, delete_on_drop: true }
    }

    /// Path of the directory.
    pub fn path(&self) -> (r: &str)
        ensures
            r@ == self.path_spec(),
    {
        self.directory.as_str()
    }

    /// Whether the directory is to be removed in the end.
    pub fn is_deleted_on_drop(&self) -> (r: bool)
        ensures
            r == self.deletes(),
    {
        self.delete_on_drop
    }

    /// Keeps the directory.
    pub fn disable_deletion(&mut self)
        ensures
            !final(self).deletes(),
            final(self).path_spec() == old(self).path_spec(),
    {
        self.delete_on_drop = false;
    }

    /// Keeps the directory and hands out its path.
    pub fn to_persistent(self) -> (r: String)
        ensures
            r@ == self.path_spec(),
    {
        self.directory
    }
}

} // verus!
