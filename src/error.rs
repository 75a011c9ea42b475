//! The ways in which a query against an image can fail.
use vstd::prelude::*;

verus! {

/// Why an operation on the image failed.
#[derive(Debug, Clone, Copy, PartialEq, Eq, Structural)]
pub enum Ext4Error {
    /// A read reached past the end of the image.
    Io,
    /// The superblock region is too short or describes an unusable layout.
    MalformedSuperblock,
    /// An inode record is too short, or its extent header is invalid.
    MalformedInode,
    /// The image uses an encoding that this reader does not implement.
    UnsupportedFeature,
    /// A directory listing was asked of an inode that is not a directory.
    NotADirectory,
    /// File contents were asked of an inode that is not a regular file.
    NotARegularFile,
    /// The path component at this position (counting from zero, empty
    /// components skipped) names no entry of its parent directory.
    NotFound(usize),
}

} // verus!
