//! The superblock: global parameters of the filesystem.
use vstd::prelude::*;
use vstd::arithmetic::power2::{pow2, lemma2_to64, lemma_pow2_strictly_increases};
use vstd::bits::lemma_u32_shl_is_mul;
use crate::bytes::{le16, le32, read_u16_le, read_u32_le};
use crate::error::Ext4Error;
use crate::text::{decode_lossy, lossy_utf8};

verus! {

/// Size in bytes of the superblock region.
pub const SUPERBLOCK_SIZE: usize = 1024;

/// Byte offset of the superblock within the image.
pub const SUPERBLOCK_OFFSET: u64 = 1024;

/// Largest `log_block_size` whose block size fits in a `u32`.
pub const MAX_LOG_BLOCK_SIZE: u32 = 21;

const OFFSET_INODES_COUNT: usize = 0x00;
const OFFSET_BLOCKS_COUNT: usize = 0x04;
const OFFSET_LOG_BLOCK_SIZE: usize = 0x18;
const OFFSET_INODES_PER_GROUP: usize = 0x28;
const OFFSET_INODE_SIZE: usize = 0x58;
const OFFSET_VOLUME_NAME: usize = 0x78;
const VOLUME_NAME_LENGTH: usize = 16;

/// Global filesystem parameters decoded from the superblock region.
pub struct Superblock {
    pub inodes_count: u32,
    pub blocks_count: u32,
    /// The block size is `1024 << log_block_size`.
    pub log_block_size: u32,
    pub inodes_per_group: u32,
    pub inode_size: u16,
    /// The volume label, trailing NULs removed.
    pub volume_name: String,
}

/// `s` without its trailing zero bytes.
pub open spec fn trim_nul(s: Seq<u8>) -> Seq<u8>
    decreases s.len(),
{
    if s.len() > 0 && s.last() == 0 {
        trim_nul(s.drop_last())
    } else {
        s
    }
}

/// The text that the human-readable summary formatting makes of these fields.
pub uninterp spec fn summary_text(
    volume_name: Seq<char>,
    inodes_count: u32,
    inodes_per_group: u32,
    blocks_count: u32,
    block_size: u32,
    inode_size: u16,
) -> Seq<char>;

/// Relies on `format!`: the summary line depends on the fields alone.
#[verifier::external_body]
fn format_summary(
    volume_name: &String,
    inodes_count: u32,
    inodes_per_group: u32,
    blocks_count: u32,
    block_size: u32,
    inode_size: u16,
) -> (r: String)
    ensures
        r@ == summary_text(volume_name@, inodes_count, inodes_per_group, blocks_count, block_size, inode_size),
{
    format!(
        "EXT4 Filesystem '{}': {} inodes ({} per group), {} blocks ({} bytes each), inode size: {} bytes",
        volume_name, inodes_count, inodes_per_group, blocks_count, block_size, inode_size
    )
}

/// Index one past the last non-zero byte of `b`.
fn trimmed_len(b: &[u8]) -> (r: usize)
    ensures
        r <= b@.len(),
        b@.subrange(0, r as int) == trim_nul(b@),
{
    let mut end: usize = b.len();
    assert(b@.subrange(0, end as int) =~= b@);
    while end > 0 && b[end - 1] == 0
        invariant
            end <= b@.len(),
            trim_nul(b@.subrange(0, end as int)) == trim_nul(b@),
        decreases end,
    {
        assert(b@.subrange(0, end as int).drop_last() =~= b@.subrange(0, end - 1));
        end = end - 1;
    }
    end
}

impl Superblock {
    /// This superblock holds the values that `b` stores at the fixed offsets.
    pub open spec fn decoded_from(&self, b: Seq<u8>) -> bool {
        &&& self.inodes_count as int == le32(b, 0x00)
        &&& self.blocks_count as int == le32(b, 0x04)
        &&& self.log_block_size as int == le32(b, 0x18)
        &&& self.inodes_per_group as int == le32(b, 0x28)
        &&& self.inode_size as int == le16(b, 0x58)
        &&& self.volume_name@ == lossy_utf8(trim_nul(b.subrange(0x78, 0x88)))
    }

    /// The block size in bytes.
    pub open spec fn spec_block_size(&self) -> int {
        1024 * pow2(self.log_block_size as nat) as int
    }

    /// The layout can be addressed: blocks fit in a `u32` and groups are not empty.
    pub open spec fn usable(&self) -> bool {
        &&& self.log_block_size <= MAX_LOG_BLOCK_SIZE
        &&& self.inodes_per_group > 0
    }

    /// Decodes the superblock region; fails only where `buf` is shorter than 1024 bytes.
    pub fn parse(buf: &[u8]) -> (r: Result<Superblock, Ext4Error>)
        ensures
            buf@.len() < SUPERBLOCK_SIZE ==> r == Err::<Superblock, Ext4Error>(Ext4Error::MalformedSuperblock),
            buf@.len() >= SUPERBLOCK_SIZE ==> (r matches Ok(sb) && sb.decoded_from(buf@)),
    {
        if buf.len() < SUPERBLOCK_SIZE {
            return Err(Ext4Error::MalformedSuperblock);
        }
        let inodes_count = read_u32_le(buf, OFFSET_INODES_COUNT);
        let blocks_count = read_u32_le(buf, OFFSET_BLOCKS_COUNT);
        let log_block_size = read_u32_le(buf, OFFSET_LOG_BLOCK_SIZE);
        let inodes_per_group = read_u32_le(buf, OFFSET_INODES_PER_GROUP);
        let inode_size = read_u16_le(buf, OFFSET_INODE_SIZE);
        let name_bytes = vstd::slice::slice_subrange(buf, OFFSET_VOLUME_NAME, OFFSET_VOLUME_NAME + VOLUME_NAME_LENGTH);
        let end = trimmed_len(name_bytes);
        let trimmed = vstd::slice::slice_subrange(name_bytes, 0, end);
        let volume_name = decode_lossy(trimmed);
        Ok(Superblock {
            inodes_count,
            blocks_count,
            log_block_size,
            inodes_per_group,
            inode_size,
            volume_name,
        })
    }

    /// The block size in bytes, `1024 << log_block_size`.
    pub fn block_size(&self) -> (r: u32)
        requires
            self.log_block_size <= MAX_LOG_BLOCK_SIZE,
        ensures
            r as int == self.spec_block_size(),
            1024 <= r <= 0x8000_0000,
    {
        proof {
            lemma2_to64();
            if self.log_block_size < 21 {
                lemma_pow2_strictly_increases(self.log_block_size as nat, 21);
            }
            lemma_u32_shl_is_mul(1024, self.log_block_size);
        }
        1024u32 << self.log_block_size
    }

    /// A one-line human-readable description of the superblock.
    pub fn summary(&self) -> (r: String)
        requires
            self.log_block_size <= MAX_LOG_BLOCK_SIZE,
        ensures
            r@ == summary_text(
                self.volume_name@,
                self.inodes_count,
                self.inodes_per_group,
                self.blocks_count,
                self.spec_block_size() as u32,
                self.inode_size,
            ),
    {
        let bs = self.block_size();
        format_summary(&self.volume_name, self.inodes_count, self.inodes_per_group, self.blocks_count, bs, self.inode_size)
    }
}

} // verus!
