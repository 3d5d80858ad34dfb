pub mod ext2;
pub mod devfs;
pub mod vfs;

use vstd::prelude::*;

verus! {

/// What a node of the file system tree is.  A mount point names, by its
/// index, the mountable file system whose root it is.
#[derive(Clone, Copy, Debug, PartialEq, Eq, Structural)]
pub enum NodeType {
    MountPoint(usize),
    Dir,
    RegularFile,
    BlockDevice,
    CharDevice,
}

impl NodeType {
    pub open spec fn spec_is_seekable(self) -> bool {
        self is RegularFile || self is BlockDevice
    }

    pub open spec fn spec_is_openable(self) -> bool {
        self is RegularFile || self is BlockDevice || self is CharDevice
    }

    /// Whether a file of this type has a position that reads and writes
    /// advance: regular files and block devices do, character devices and
    /// directories do not.
    pub fn is_seekable(&self) -> (r: bool)
        ensures
            r == self.spec_is_seekable(),
    {
        match self {
            NodeType::RegularFile | NodeType::BlockDevice => true,
            _ => false,
        }
    }

    /// Whether a file of this type can be opened.
    pub fn is_openable(&self) -> (r: bool)
        ensures
            r == self.spec_is_openable(),
    {
        match self {
            NodeType::RegularFile | NodeType::BlockDevice | NodeType::CharDevice => true,
            _ => false,
        }
    }
}

/// A node of the file system tree, as a file handle sees it: where the node
/// is in the tree, what it is, and which file it is on its file system.
#[derive(Clone, Copy, Debug, PartialEq, Eq, Structural)]
pub struct Node {
    pub index: usize,
    pub node_type: NodeType,
    pub id_in_fs: Option<usize>,
}

/// What a directory entry names, as far as the kernel tells them apart.
#[derive(Clone, Copy, Debug, PartialEq, Eq, Structural)]
pub enum DirEntryContent {
    Unknown,
    RegularFile,
    Directory,
}

#[derive(Clone, Copy, Debug, PartialEq, Eq, Structural)]
pub enum PathErr {
    NotFound,
}

/// Why a directory could not be read.
#[derive(Clone, Copy, Debug, PartialEq, Eq, Structural)]
pub enum ReadDirErr {
    NoRwInterface,
    DiskErr,
    InvalidName,
    InvalidDescriptor,
}

/// Why a file could not be read.
#[derive(Clone, Copy, Debug, PartialEq, Eq, Structural)]
pub enum ReadFileErr {
    NoRwInterface,
    DiskErr,
    InvalidBlockNum,
    InvalidOffsetOrLength,
    /// The file cannot be read.
    NotReadable,
    /// Nothing can be read yet; the reader has to wait.
    Block,
}

} // verus!
