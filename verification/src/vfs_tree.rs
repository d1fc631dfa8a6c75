//! The vocabulary of a tree-shaped file system: nodes with a name and a
//! parent, directories that create, mount and look up nodes, and file
//! systems with a root directory.

use vstd::prelude::*;
use crate::vfs::NodeType;

verus! {

/// A node of the tree.
pub trait Node {
    /// Visits the parent directory.
    fn parent(&self);

    /// The node's name.
    fn name(&self) -> &str;
}

/// A file of the tree.
pub trait File: Node {
    /// Reads the file.
    fn read(&self);
}

/// A directory of the tree.
pub trait Directory: Node + Sized {
    /// The kind of file the directory holds.
    type File: File;

    /// Creates the directory `name` in this one.
    fn create_dir(&self, name: &str);

    /// Creates the file `name` in this one.
    fn create_file(&self, name: &str);

    /// Mounts `file_system` (a [`FileSystem`]) on this directory. The bound
    /// is not written on `T`: with it, this trait and `FileSystem` would
    /// name each other.
    fn mount<T>(&self, file_system: T);

    /// The node called `name` in this directory.
    fn get(&self, name: &str) -> NodeType<Self::File, Self>;
}

/// A file system: a tree with a root directory.
pub trait FileSystem {
    /// The kind of file the tree holds.
    type File: File;

    /// The kind of directory the tree holds.
    type Directory: Directory<File = Self::File>;

    /// The root directory.
    fn root(&self) -> Self::Directory;
}

} // verus!
