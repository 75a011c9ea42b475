//! Block group descriptors: where each group keeps its inode table.
use vstd::prelude::*;
use crate::bytes::{le32, read_u32_le};

verus! {

/// Width in bytes of one group descriptor.
pub const GROUP_DESC_LEN: usize = 32;

const OFFSET_INODE_TABLE_BLOCK: usize = 0x08;

/// The one field of a group descriptor that the read path needs.
#[derive(Debug, Clone, Copy, PartialEq, Eq, Structural)]
pub struct GroupDescriptor {
    /// Block number where this group's inode table starts.
    pub inode_table_block: u32,
}

/// Byte offset of the group-descriptor table for a given block size: block 2
/// for 1024-byte blocks, where the superblock fills block 1, else block 1.
pub open spec fn desc_table_start(block_size: int) -> int {
    if block_size == 1024 {
        2048
    } else {
        block_size
    }
}

impl GroupDescriptor {
    /// Decodes a group descriptor.
    pub fn parse(buf: &[u8]) -> (r: GroupDescriptor)
        requires
            buf@.len() >= 12,
        ensures
            r.inode_table_block as int == le32(buf@, 0x08),
    {
        GroupDescriptor { inode_table_block: read_u32_le(buf, OFFSET_INODE_TABLE_BLOCK) }
    }
}

} // verus!
