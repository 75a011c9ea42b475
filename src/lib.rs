//! A read-only reader for the ext4 on-disk format, working on an image held
//! in memory: superblock and group descriptors, inodes with direct or extent
//! block mapping, directory records, and path resolution from the root.
pub mod bytes;
pub mod error;
pub mod text;
pub mod superblock;
pub mod group;
pub mod inode;
pub mod dir;
pub mod fs;
