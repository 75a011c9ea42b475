//! Inodes and the two ways they map a file onto physical blocks.
use vstd::prelude::*;
use crate::bytes::{le16, le32, read_u16_le, read_u32_le};
use crate::error::Ext4Error;

verus! {

/// Magic number that opens every extent-tree node.
pub const EXTENT_MAGIC: u16 = 0xF30A;
/// Inode flag that selects extent mapping.
pub const EXTENTS_FLAG: u32 = 0x0008_0000;
/// Size of an extent header and of one leaf extent.
pub const EXTENT_RECORD_LEN: usize = 12;
/// Size of the block-mapping region of an inode.
pub const BLOCK_REGION_LEN: usize = 60;
/// Number of raw block pointers in a direct-mapped inode.
pub const DIRECT_POINTERS: usize = 15;

const OFFSET_MODE: usize = 0x00;
const OFFSET_SIZE: usize = 0x04;
const OFFSET_FLAGS: usize = 0x20;
const OFFSET_BLOCK_REGION: usize = 0x28;
/// Bytes an inode record must hold for all the fields this reader decodes.
pub const INODE_MIN_LEN: usize = 0x28 + 60;

/// The header of an extent-tree node.
#[derive(Debug, Clone, Copy, PartialEq, Eq, Structural)]
pub struct ExtentHeader {
    pub magic: u16,
    pub entry_count: u16,
    pub max_entry_count: u16,
    pub tree_depth: u16,
    pub generation: u32,
}

/// A leaf extent: a run of consecutive physical blocks.
#[derive(Debug, Clone, Copy, PartialEq, Eq, Structural)]
pub struct Extent {
    /// First logical block of the file that this run covers.
    pub logical_block: u32,
    /// Number of blocks in the run.
    pub block_count: u16,
    /// Upper 16 bits of the first physical block.
    pub start_block_hi: u16,
    /// Lower 32 bits of the first physical block.
    pub start_block_lo: u32,
}

/// How an inode locates its data.
#[derive(Debug)]
pub enum BlockMap {
    /// The 15 raw block pointers, not dereferenced.
    Direct(Vec<u32>),
    /// A leaf-only extent tree: its header and its extents in order.
    Extents(ExtentHeader, Vec<Extent>),
}

/// A decoded inode.
#[derive(Debug)]
pub struct Inode {
    pub mode: u16,
    /// Low 32 bits of the file size.
    pub size: u32,
    pub flags: u32,
    pub block_map: BlockMap,
}

/// The extent header stored at the start of `b`.
pub open spec fn spec_extent_header(b: Seq<u8>) -> Result<ExtentHeader, Ext4Error> {
    if b.len() < 12 || le16(b, 0) != EXTENT_MAGIC {
        Err(Ext4Error::MalformedInode)
    } else {
        Ok(ExtentHeader {
            magic: le16(b, 0) as u16,
            entry_count: le16(b, 2) as u16,
            max_entry_count: le16(b, 4) as u16,
            tree_depth: le16(b, 6) as u16,
            generation: le32(b, 8) as u32,
        })
    }
}

/// The leaf extent stored at offset `off` of `b`.
pub open spec fn spec_extent_at(b: Seq<u8>, off: int) -> Extent {
    Extent {
        logical_block: le32(b, off) as u32,
        block_count: le16(b, off + 4) as u16,
        start_block_hi: le16(b, off + 6) as u16,
        start_block_lo: le32(b, off + 8) as u32,
    }
}

/// The physical blocks covered by a list of extents, in order.
pub open spec fn flatten_extents(exts: Seq<Extent>) -> Seq<u64>
    decreases exts.len(),
{
    if exts.len() == 0 {
        Seq::empty()
    } else {
        flatten_extents(exts.drop_last()) + exts.last().spec_blocks()
    }
}

/// The block-mapping region of an inode record.
pub open spec fn block_region(b: Seq<u8>) -> Seq<u8> {
    b.subrange(40, 100)
}

/// The flag word of an inode record selects extent mapping.
pub open spec fn uses_extents(b: Seq<u8>) -> bool {
    (le32(b, 0x20) as u32) & EXTENTS_FLAG != 0
}

/// The physical block list of an inode record, or why it cannot be decoded.
pub open spec fn spec_inode_blocks(b: Seq<u8>) -> Result<Seq<u64>, Ext4Error> {
    let region = block_region(b);
    if uses_extents(b) {
        match spec_extent_header(region) {
            Err(e) => Err(e),
            Ok(h) => if h.tree_depth > 0 {
                Err(Ext4Error::UnsupportedFeature)
            } else if 12 + 12 * h.entry_count > 60 {
                Err(Ext4Error::MalformedInode)
            } else {
                Ok(flatten_extents(Seq::new(h.entry_count as nat, |k: int| spec_extent_at(region, 12 + 12 * k))))
            },
        }
    } else {
        Ok(Seq::new(15, |k: int| le32(region, 4 * k) as u64))
    }
}

/// The mode, size and physical block list of an inode record, or why it
/// cannot be decoded.
pub open spec fn spec_inode(b: Seq<u8>) -> Result<(u16, u32, Seq<u64>), Ext4Error> {
    if b.len() < INODE_MIN_LEN {
        Err(Ext4Error::MalformedInode)
    } else {
        match spec_inode_blocks(b) {
            Err(e) => Err(e),
            Ok(blocks) => Ok((le16(b, 0) as u16, le32(b, 4) as u32, blocks)),
        }
    }
}

impl ExtentHeader {
    /// Decodes an extent header; fails with `MalformedInode` where `buf` is
    /// shorter than a header or the magic number is wrong.
    pub fn parse(buf: &[u8]) -> (r: Result<ExtentHeader, Ext4Error>)
        ensures
            r == spec_extent_header(buf@),
    {
        if buf.len() < EXTENT_RECORD_LEN {
            return Err(Ext4Error::MalformedInode);
        }
        let magic = read_u16_le(buf, 0);
        if magic != EXTENT_MAGIC {
            return Err(Ext4Error::MalformedInode);
        }
        let entry_count = read_u16_le(buf, 2);
        let max_entry_count = read_u16_le(buf, 4);
        let tree_depth = read_u16_le(buf, 6);
        let generation = read_u32_le(buf, 8);
        Ok(ExtentHeader { magic, entry_count, max_entry_count, tree_depth, generation })
    }
}

impl Extent {
    /// Decodes a leaf extent; fails with `MalformedInode` where `buf` is
    /// shorter than one.
    pub fn parse(buf: &[u8]) -> (r: Result<Extent, Ext4Error>)
        ensures
            buf@.len() < 12 ==> r == Err::<Extent, Ext4Error>(Ext4Error::MalformedInode),
            buf@.len() >= 12 ==> r == Ok::<Extent, Ext4Error>(spec_extent_at(buf@, 0)),
    {
        if buf.len() < EXTENT_RECORD_LEN {
            return Err(Ext4Error::MalformedInode);
        }
        let logical_block = read_u32_le(buf, 0);
        let block_count = read_u16_le(buf, 4);
        let start_block_hi = read_u16_le(buf, 6);
        let start_block_lo = read_u32_le(buf, 8);
        Ok(Extent { logical_block, block_count, start_block_hi, start_block_lo })
    }

    /// The first physical block of the run.
    pub open spec fn spec_start(&self) -> int {
        self.start_block_hi as int * 0x1_0000_0000 + self.start_block_lo as int
    }

    /// The physical blocks of the run, in order.
    pub open spec fn spec_blocks(&self) -> Seq<u64> {
        Seq::new(self.block_count as nat, |j: int| (self.spec_start() + j) as u64)
    }

    /// The first physical block of the run, `(start_block_hi << 32) | start_block_lo`.
    pub fn physical_block_start(&self) -> (r: u64)
        ensures
            r as int == self.spec_start(),
    {
        let hi: u64 = self.start_block_hi as u64;
        let lo: u64 = self.start_block_lo as u64;
        assert((hi << 32u64) | lo == hi * 0x1_0000_0000u64 + lo) by (bit_vector)
            requires
                hi < 0x1_0000u64,
                lo < 0x1_0000_0000u64,
        ;
        (hi << 32u64) | lo
    }

    /// The physical blocks of the run, in order.
    pub fn blocks(&self) -> (r: Vec<u64>)
        ensures
            r@ == self.spec_blocks(),
    {
        let start = self.physical_block_start();
        let count = self.block_count as u64;
        let mut r: Vec<u64> = Vec::new();
        let mut j: u64 = 0;
        while j < count
            invariant
                j <= count,
                count == self.block_count,
                start as int == self.spec_start(),
                r@ == Seq::new(j as nat, |i: int| (self.spec_start() + i) as u64),
            decreases count - j,
        {
            r.push(start + j);
            j = j + 1;
            assert(r@ =~= Seq::new(j as nat, |i: int| (self.spec_start() + i) as u64));
        }
        r
    }
}

/// Decodes the 15 raw block pointers of a direct-mapped block region.
fn parse_direct(region: &[u8]) -> (r: Vec<u32>)
    requires
        region@.len() == BLOCK_REGION_LEN,
    ensures
        r@.map_values(|p: u32| p as u64) == Seq::new(15, |k: int| le32(region@, 4 * k) as u64),
{
    let mut r: Vec<u32> = Vec::new();
    let mut k: usize = 0;
    while k < DIRECT_POINTERS
        invariant
            k <= DIRECT_POINTERS,
            region@.len() == BLOCK_REGION_LEN,
            r@.len() == k,
            forall|i: int| 0 <= i < k ==> #[trigger] r@[i] as int == le32(region@, 4 * i),
        decreases DIRECT_POINTERS - k,
    {
        let p = read_u32_le(region, 4 * k);
        r.push(p);
        k = k + 1;
    }
    assert(r@.map_values(|p: u32| p as u64) =~= Seq::new(15, |k: int| le32(region@, 4 * k) as u64));
    r
}

/// Decodes the leaf extents that follow the header of a block region.
fn parse_extents(region: &[u8], count: u16) -> (r: Vec<Extent>)
    requires
        region@.len() == BLOCK_REGION_LEN,
        12 + 12 * count <= 60,
    ensures
        r@ == Seq::new(count as nat, |k: int| spec_extent_at(region@, 12 + 12 * k)),
{
    let mut r: Vec<Extent> = Vec::new();
    let mut k: usize = 0;
    while k < count as usize
        invariant
            k <= count,
            region@.len() == BLOCK_REGION_LEN,
            12 + 12 * count <= 60,
            r@ == Seq::new(k as nat, |i: int| spec_extent_at(region@, 12 + 12 * i)),
        decreases count - k,
    {
        let off = EXTENT_RECORD_LEN + EXTENT_RECORD_LEN * k;
        let rec = vstd::slice::slice_subrange(region, off, off + EXTENT_RECORD_LEN);
        let e = match Extent::parse(rec) {
            Ok(e) => e,
            Err(_) => {
                assert(false);
                Extent { logical_block: 0, block_count: 0, start_block_hi: 0, start_block_lo: 0 }
            },
        };
        assert(e == spec_extent_at(region@, 12 + 12 * k));
        r.push(e);
        k = k + 1;
        assert(r@ =~= Seq::new(k as nat, |i: int| spec_extent_at(region@, 12 + 12 * i)));
    }
    r
}

impl Inode {
    /// The physical block list of this inode, whatever its mapping.
    pub open spec fn block_list(&self) -> Seq<u64> {
        match self.block_map {
            BlockMap::Direct(p) => p@.map_values(|x: u32| x as u64),
            BlockMap::Extents(_, e) => flatten_extents(e@),
        }
    }

    /// The type nibble of the mode says directory.
    pub open spec fn spec_is_dir(mode: u16) -> bool {
        mode & 0xF000 == 0x4000
    }

    /// The type nibble of the mode says regular file.
    pub open spec fn spec_is_regular(mode: u16) -> bool {
        mode & 0xF000 == 0x8000
    }

    /// Decodes an inode record.
    ///
    /// Fails with `MalformedInode` where the record is too short, the extent
    /// magic is wrong or the extents overrun the block region, and with
    /// `UnsupportedFeature` where the extent tree has index levels.
    pub fn parse(buf: &[u8]) -> (r: Result<Inode, Ext4Error>)
        ensures
            r is Ok <==> spec_inode(buf@) is Ok,
            r matches Err(e) ==> spec_inode(buf@) == Err::<(u16, u32, Seq<u64>), Ext4Error>(e),
            r matches Ok(i) ==> {
                &&& spec_inode(buf@) == Ok::<(u16, u32, Seq<u64>), Ext4Error>((i.mode, i.size, i.block_list()))
                &&& i.flags as int == le32(buf@, 0x20)
                &&& (i.block_map is Extents <==> uses_extents(buf@))
            },
    {
        if buf.len() < INODE_MIN_LEN {
            return Err(Ext4Error::MalformedInode);
        }
        let mode = read_u16_le(buf, OFFSET_MODE);
        let size = read_u32_le(buf, OFFSET_SIZE);
        let flags = read_u32_le(buf, OFFSET_FLAGS);
        let region = vstd::slice::slice_subrange(buf, OFFSET_BLOCK_REGION, OFFSET_BLOCK_REGION + BLOCK_REGION_LEN);
        assert(region@ == block_region(buf@));
        if flags & EXTENTS_FLAG != 0 {
            let header = match ExtentHeader::parse(region) {
                Ok(h) => h,
                Err(e) => return Err(e),
            };
            if header.tree_depth > 0 {
                return Err(Ext4Error::UnsupportedFeature);
            }
            if EXTENT_RECORD_LEN + EXTENT_RECORD_LEN * (header.entry_count as usize) > BLOCK_REGION_LEN {
                return Err(Ext4Error::MalformedInode);
            }
            let extents = parse_extents(region, header.entry_count);
            Ok(Inode { mode, size, flags, block_map: BlockMap::Extents(header, extents) })
        } else {
            let ptrs = parse_direct(region);
            Ok(Inode { mode, size, flags, block_map: BlockMap::Direct(ptrs) })
        }
    }

    /// The mode says directory.
    pub fn is_directory(&self) -> (r: bool)
        ensures
            r == Self::spec_is_dir(self.mode),
    {
        self.mode & 0xF000 == 0x4000
    }

    /// The mode says regular file.
    pub fn is_regular_file(&self) -> (r: bool)
        ensures
            r == Self::spec_is_regular(self.mode),
    {
        self.mode & 0xF000 == 0x8000
    }

    /// The physical blocks backing this inode, in order: the raw pointers of
    /// a direct-mapped inode, or the runs of its extents one after another.
    pub fn blocks(&self) -> (r: Vec<u64>)
        ensures
            r@ == self.block_list(),
    {
        match &self.block_map {
            BlockMap::Direct(ptrs) => {
                let mut r: Vec<u64> = Vec::new();
                let mut k: usize = 0;
                while k < ptrs.len()
                    invariant
                        k <= ptrs@.len(),
                        r@ == ptrs@.subrange(0, k as int).map_values(|x: u32| x as u64),
                    decreases ptrs@.len() - k,
                {
                    r.push(ptrs[k] as u64);
                    k = k + 1;
                    assert(r@ =~= ptrs@.subrange(0, k as int).map_values(|x: u32| x as u64));
                }
                assert(ptrs@.subrange(0, ptrs@.len() as int) =~= ptrs@);
                r
            },
            BlockMap::Extents(_, exts) => {
                let mut r: Vec<u64> = Vec::new();
                let mut k: usize = 0;
                while k < exts.len()
                    invariant
                        k <= exts@.len(),
                        r@ == flatten_extents(exts@.subrange(0, k as int)),
                    decreases exts@.len() - k,
                {
                    let run = exts[k].blocks();
                    let mut j: usize = 0;
                    let ghost base = r@;
                    while j < run.len()
                        invariant
                            j <= run@.len(),
                            r@ == base + run@.subrange(0, j as int),
                        decreases run@.len() - j,
                    {
                        r.push(run[j]);
                        j = j + 1;
                        assert(r@ =~= base + run@.subrange(0, j as int));
                    }
                    assert(run@.subrange(0, run@.len() as int) =~= run@);
                    assert(exts@.subrange(0, k + 1).drop_last() =~= exts@.subrange(0, k as int));
                    k = k + 1;
                }
                assert(exts@.subrange(0, exts@.len() as int) =~= exts@);
                r
            },
        }
    }
}

} // verus!
