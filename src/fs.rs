//! The filesystem handle: inode lookup, directory listing and path resolution
//! over an image held in memory.
use vstd::prelude::*;
use vstd::string::StringSliceAdditionalSpecFns;
use crate::bytes::le32;
use crate::dir::{DirectoryEntry, DirentHeader, RawRecord, scan_records, scan_block, located_record};
use crate::error::Ext4Error;
use crate::group::{GroupDescriptor, GROUP_DESC_LEN, desc_table_start};
use crate::inode::{Inode, spec_inode};
use crate::superblock::{Superblock, SUPERBLOCK_OFFSET, SUPERBLOCK_SIZE, MAX_LOG_BLOCK_SIZE, summary_text};
use crate::text::{decode_lossy, lossy_utf8};

verus! {

/// Inode number of the root directory.
pub const ROOT_INODE: u32 = 2;

/// `len` bytes of the image from byte `off` on, or `Io` where they run past its end.
pub open spec fn spec_read(img: Seq<u8>, off: int, len: int) -> Result<Seq<u8>, Ext4Error> {
    if 0 <= off && 0 <= len && off + len <= img.len() {
        Ok(img.subrange(off, off + len))
    } else {
        Err(Ext4Error::Io)
    }
}

/// The inode-table block of group `g`.
pub open spec fn spec_inode_table(img: Seq<u8>, sb: Superblock, g: int) -> Result<u32, Ext4Error> {
    match spec_read(img, desc_table_start(sb.spec_block_size()) + 32 * g, 32) {
        Err(e) => Err(e),
        Ok(d) => Ok(le32(d, 0x08) as u32),
    }
}

/// Group index and index within the group of inode number `n`.
pub open spec fn spec_inode_location(n: int, inodes_per_group: int) -> (int, int) {
    ((n - 1) / inodes_per_group, (n - 1) % inodes_per_group)
}

/// The raw record of inode `n`.
pub open spec fn spec_inode_record(img: Seq<u8>, sb: Superblock, n: u32) -> Result<Seq<u8>, Ext4Error> {
    let (g, l) = spec_inode_location(n as int, sb.inodes_per_group as int);
    match spec_inode_table(img, sb, g) {
        Err(e) => Err(e),
        Ok(t) => spec_read(img, t * sb.spec_block_size() + l * sb.inode_size, sb.inode_size as int),
    }
}

/// Mode, size and physical block list of inode `n`.
pub open spec fn spec_read_inode(img: Seq<u8>, sb: Superblock, n: u32) -> Result<(u16, u32, Seq<u64>), Ext4Error> {
    match spec_inode_record(img, sb, n) {
        Err(e) => Err(e),
        Ok(b) => spec_inode(b),
    }
}

/// Splits inode number `inode_num` (counted from 1) into its group index and
/// its index within that group.
pub fn inode_location(inode_num: u32, inodes_per_group: u32) -> (r: (u32, u32))
    requires
        inode_num >= 1,
        inodes_per_group > 0,
    ensures
        r.0 as int == spec_inode_location(inode_num as int, inodes_per_group as int).0,
        r.1 as int == spec_inode_location(inode_num as int, inodes_per_group as int).1,
{
    let index = inode_num - 1;
    (index / inodes_per_group, index % inodes_per_group)
}

/// A read-only ext4 filesystem over an image held in memory.
pub struct FileSystem {
    image: Vec<u8>,
    superblock: Superblock,
}

impl FileSystem {
    /// The bytes of the image.
    pub closed spec fn image_bytes(&self) -> Seq<u8> {
        self.image@
    }

    /// The decoded superblock.
    pub closed spec fn sb(&self) -> Superblock {
        self.superblock
    }

    /// The superblock describes a layout this reader can address, and the
    /// image fits in the address space.
    pub open spec fn wf(&self) -> bool {
        &&& self.sb().usable()
        &&& self.image_bytes().len() <= usize::MAX
    }

    /// Opens an image: decodes its superblock from bytes 1024..2048.
    ///
    /// Fails with `Io` where the image ends before the superblock does, and
    /// with `MalformedSuperblock` where the block size does not fit in a
    /// `u32` or a group holds no inodes.
    pub fn open(image: Vec<u8>) -> (r: Result<FileSystem, Ext4Error>)
        ensures
            image@.len() < 2048 ==> r == Err::<FileSystem, Ext4Error>(Ext4Error::Io),
            image@.len() >= 2048 ==> match r {
                Ok(fs) => {
                    &&& fs.wf()
                    &&& fs.image_bytes() == image@
                    &&& fs.sb().decoded_from(image@.subrange(1024, 2048))
                },
                Err(e) => {
                    &&& e == Ext4Error::MalformedSuperblock
                    &&& forall|sb: Superblock| #[trigger] sb.decoded_from(image@.subrange(1024, 2048)) ==> !sb.usable()
                },
            },
    {
        if image.len() < SUPERBLOCK_OFFSET as usize + SUPERBLOCK_SIZE {
            return Err(Ext4Error::Io);
        }
        let region = vstd::slice::slice_subrange(image.as_slice(), SUPERBLOCK_OFFSET as usize, SUPERBLOCK_OFFSET as usize + SUPERBLOCK_SIZE);
        let superblock = match Superblock::parse(region) {
            Ok(sb) => sb,
            Err(e) => return Err(e),
        };
        if superblock.log_block_size > MAX_LOG_BLOCK_SIZE || superblock.inodes_per_group == 0 {
            return Err(Ext4Error::MalformedSuperblock);
        }
        Ok(FileSystem { image, superblock })
    }

    /// The decoded superblock.
    pub fn superblock(&self) -> (r: &Superblock)
        ensures
            *r == self.sb(),
    {
        &self.superblock
    }

    /// A one-line human-readable description of the filesystem.
    pub fn summary(&self) -> (r: String)
        requires
            self.wf(),
        ensures
            r@ == summary_text(
                self.sb().volume_name@,
                self.sb().inodes_count,
                self.sb().inodes_per_group,
                self.sb().blocks_count,
                self.sb().spec_block_size() as u32,
                self.sb().inode_size,
            ),
    {
        self.superblock.summary()
    }

    /// `len` bytes of the image from byte `off` on.
    fn read_bytes(&self, off: u64, len: usize) -> (r: Result<&[u8], Ext4Error>)
        ensures
            match r {
                Ok(b) => spec_read(self.image_bytes(), off as int, len as int) == Ok::<Seq<u8>, Ext4Error>(b@),
                Err(e) => spec_read(self.image_bytes(), off as int, len as int) == Err::<Seq<u8>, Ext4Error>(e),
            },
    {
        let total = self.image.len();
        if off > total as u64 || len > total - off as usize {
            return Err(Ext4Error::Io);
        }
        let start = off as usize;
        Ok(vstd::slice::slice_subrange(self.image.as_slice(), start, start + len))
    }

    /// The descriptor of block group `group_index`.
    fn read_group_desc(&self, group_index: u32) -> (r: Result<GroupDescriptor, Ext4Error>)
        requires
            self.wf(),
        ensures
            match r {
                Ok(d) => spec_inode_table(self.image_bytes(), self.sb(), group_index as int) == Ok::<u32, Ext4Error>(d.inode_table_block),
                Err(e) => spec_inode_table(self.image_bytes(), self.sb(), group_index as int) == Err::<u32, Ext4Error>(e),
            },
    {
        let block_size = self.superblock.block_size();
        let table_start: u64 = if block_size == 1024 { 2048 } else { block_size as u64 };
        let offset = table_start + group_index as u64 * GROUP_DESC_LEN as u64;
        let buf = self.read_bytes(offset, GROUP_DESC_LEN)?;
        Ok(GroupDescriptor::parse(buf))
    }

    /// Reads and decodes inode `inode_num`.
    pub fn read_inode(&self, inode_num: u32) -> (r: Result<Inode, Ext4Error>)
        requires
            self.wf(),
            inode_num >= 1,
        ensures
            r is Ok <==> spec_read_inode(self.image_bytes(), self.sb(), inode_num) is Ok,
            r matches Err(e) ==> spec_read_inode(self.image_bytes(), self.sb(), inode_num)
                == Err::<(u16, u32, Seq<u64>), Ext4Error>(e),
            r matches Ok(i) ==> spec_read_inode(self.image_bytes(), self.sb(), inode_num)
                == Ok::<(u16, u32, Seq<u64>), Ext4Error>((i.mode, i.size, i.block_list())),
    {
        let block_size = self.superblock.block_size() as u64;
        let inode_size = self.superblock.inode_size as u64;
        let (group_index, local_index) = inode_location(inode_num, self.superblock.inodes_per_group);
        let group = match self.read_group_desc(group_index) {
            Ok(g) => g,
            Err(e) => return Err(e),
        };
        let table = group.inode_table_block as u64;
        assert(table * block_size <= 0xFFFF_FFFFu64 * 0x8000_0000u64) by (nonlinear_arith)
            requires
                table <= 0xFFFF_FFFFu64,
                block_size <= 0x8000_0000u64,
        ;
        assert(local_index as u64 * inode_size <= 0xFFFF_FFFFu64 * 0xFFFFu64) by (nonlinear_arith)
            requires
                local_index <= 0xFFFF_FFFFu32,
                inode_size <= 0xFFFFu64,
        ;
        let offset = table * block_size + local_index as u64 * inode_size;
        let buf = self.read_bytes(offset, inode_size as usize)?;
        Inode::parse(buf)
    }
}

/// The records of the directory blocks in `blocks`, in order; zero entries
/// are unallocated and skipped.
pub open spec fn spec_dir_records(img: Seq<u8>, bs: int, blocks: Seq<u64>) -> Result<Seq<RawRecord>, Ext4Error>
    decreases blocks.len(),
{
    if blocks.len() == 0 {
        Ok(Seq::empty())
    } else {
        match spec_dir_records(img, bs, blocks.drop_last()) {
            Err(e) => Err(e),
            Ok(prev) => if blocks.last() == 0 {
                Ok(prev)
            } else {
                match spec_read(img, blocks.last() * bs, bs) {
                    Err(e) => Err(e),
                    Ok(data) => Ok(prev + scan_records(data, 0)),
                }
            },
        }
    }
}

/// The records of directory inode `n`.
pub open spec fn spec_read_dir(img: Seq<u8>, sb: Superblock, n: u32) -> Result<Seq<RawRecord>, Ext4Error> {
    match spec_read_inode(img, sb, n) {
        Err(e) => Err(e),
        Ok((mode, _, blocks)) => if !Inode::spec_is_dir(mode) {
            Err(Ext4Error::NotADirectory)
        } else {
            spec_dir_records(img, sb.spec_block_size(), blocks)
        },
    }
}

/// The inode of the first record named `name`.
pub open spec fn first_match(recs: Seq<RawRecord>, name: Seq<u8>) -> Option<u32>
    decreases recs.len(),
{
    if recs.len() == 0 {
        None
    } else if recs[0].1 == name {
        Some(recs[0].0)
    } else {
        first_match(recs.drop_first(), name)
    }
}

/// The non-empty slash-separated components of `p[start..]`, where the
/// current component began at `start` and `i` bytes have been looked at.
pub open spec fn components_from(p: Seq<u8>, start: int, i: int) -> Seq<Seq<u8>>
    decreases p.len() - i,
{
    if i < start || i >= p.len() {
        if 0 <= start < p.len() {
            seq![p.subrange(start, p.len() as int)]
        } else {
            Seq::empty()
        }
    } else if p[i] == 0x2F {
        (if start < i { seq![p.subrange(start, i)] } else { Seq::<Seq<u8>>::empty() })
            + components_from(p, i + 1, i + 1)
    } else {
        components_from(p, start, i + 1)
    }
}

/// The non-empty components of a slash-separated path.
pub open spec fn path_components(p: Seq<u8>) -> Seq<Seq<u8>> {
    components_from(p, 0, 0)
}

/// Walks `comps[idx..]` from directory inode `cur`, one lookup per component.
pub open spec fn spec_walk(img: Seq<u8>, sb: Superblock, cur: u32, comps: Seq<Seq<u8>>, idx: int) -> Result<u32, Ext4Error>
    decreases comps.len() - idx,
{
    if idx < 0 || idx >= comps.len() {
        Ok(cur)
    } else {
        match spec_read_dir(img, sb, cur) {
            Err(e) => Err(e),
            Ok(recs) => match first_match(recs, comps[idx]) {
                None => Err(Ext4Error::NotFound(idx as usize)),
                Some(next) => spec_walk(img, sb, next, comps, idx + 1),
            },
        }
    }
}

/// The inode number that path `p` names, starting at the root.
pub open spec fn spec_resolve(img: Seq<u8>, sb: Superblock, p: Seq<u8>) -> Result<u32, Ext4Error> {
    spec_walk(img, sb, ROOT_INODE, path_components(p), 0)
}

/// An error met on a prefix of the block list is the error of the whole list.
proof fn lemma_dir_records_err_prefix(img: Seq<u8>, bs: int, blocks: Seq<u64>, k: int, e: Ext4Error)
    requires
        0 <= k <= blocks.len(),
        spec_dir_records(img, bs, blocks.subrange(0, k)) == Err::<Seq<RawRecord>, Ext4Error>(e),
    ensures
        spec_dir_records(img, bs, blocks) == Err::<Seq<RawRecord>, Ext4Error>(e),
    decreases blocks.len(),
{
    if k == blocks.len() {
        assert(blocks.subrange(0, k) =~= blocks);
    } else {
        assert(blocks.drop_last().subrange(0, k) =~= blocks.subrange(0, k));
        lemma_dir_records_err_prefix(img, bs, blocks.drop_last(), k, e);
    }
}

/// A directory record with its name as raw bytes.
pub struct RawEntry {
    pub inode: u32,
    pub name: Vec<u8>,
    pub file_type: u8,
}

/// What a raw entry holds.
pub open spec fn raw_view(e: RawEntry) -> RawRecord {
    (e.inode, e.name@, e.file_type)
}

/// Compares two byte strings.
fn bytes_equal(a: &[u8], b: &[u8]) -> (r: bool)
    ensures
        r == (a@ == b@),
{
    if a.len() != b.len() {
        return false;
    }
    let mut i: usize = 0;
    while i < a.len()
        invariant
            i <= a@.len(),
            a@.len() == b@.len(),
            forall|j: int| 0 <= j < i ==> a@[j] == b@[j],
        decreases a@.len() - i,
    {
        if a[i] != b[i] {
            return false;
        }
        i = i + 1;
    }
    assert(a@ =~= b@);
    true
}

/// Splits a path on `/`, dropping empty components.
pub fn split_path(p: &[u8]) -> (r: Vec<Vec<u8>>)
    ensures
        r@.len() == path_components(p@).len(),
        forall|i: int| 0 <= i < r@.len() ==> #[trigger] r@[i]@ == path_components(p@)[i],
{
    let mut r: Vec<Vec<u8>> = Vec::new();
    let ghost mut seen: Seq<Seq<u8>> = Seq::empty();
    let len = p.len();
    let mut start: usize = 0;
    let mut i: usize = 0;
    while i < len
        invariant
            len == p@.len(),
            start <= i <= len,
            r@.len() == seen.len(),
            forall|j: int| 0 <= j < r@.len() ==> #[trigger] r@[j]@ == seen[j],
            seen + components_from(p@, start as int, i as int) == path_components(p@),
        decreases len - i,
    {
        if p[i] == 0x2F {
            if start < i {
                let part = vstd::slice::slice_to_vec(vstd::slice::slice_subrange(p, start, i));
                proof {
                    assert(seen.push(part@) + components_from(p@, i + 1, i + 1)
                        =~= seen + (seq![p@.subrange(start as int, i as int)] + components_from(p@, i + 1, i + 1)));
                    seen = seen.push(part@);
                }
                r.push(part);
            } else {
                assert(Seq::<Seq<u8>>::empty() + components_from(p@, i + 1, i + 1) =~= components_from(p@, i + 1, i + 1));
            }
            start = i + 1;
        }
        i = i + 1;
    }
    if start < len {
        let part = vstd::slice::slice_to_vec(vstd::slice::slice_subrange(p, start, len));
        proof {
            assert(seen.push(part@) =~= seen + seq![p@.subrange(start as int, len as int)]);
            seen = seen.push(part@);
        }
        r.push(part);
    } else {
        assert(seen + Seq::<Seq<u8>>::empty() =~= seen);
    }
    r
}

impl FileSystem {
    /// Block `blk` of the image.
    fn read_block(&self, blk: u64) -> (r: Result<&[u8], Ext4Error>)
        requires
            self.wf(),
        ensures
            match r {
                Ok(b) => spec_read(self.image_bytes(), blk * self.sb().spec_block_size(), self.sb().spec_block_size())
                    == Ok::<Seq<u8>, Ext4Error>(b@),
                Err(e) => spec_read(self.image_bytes(), blk * self.sb().spec_block_size(), self.sb().spec_block_size())
                    == Err::<Seq<u8>, Ext4Error>(e),
            },
    {
        let bs = self.superblock.block_size() as u64;
        match blk.checked_mul(bs) {
            None => Err(Ext4Error::Io),
            Some(off) => self.read_bytes(off, bs as usize),
        }
    }

    /// The records of directory inode `inode_num`, names as raw bytes.
    pub fn read_dir_raw(&self, inode_num: u32) -> (r: Result<Vec<RawEntry>, Ext4Error>)
        requires
            self.wf(),
            inode_num >= 1,
        ensures
            r is Ok <==> spec_read_dir(self.image_bytes(), self.sb(), inode_num) is Ok,
            r matches Err(e) ==> spec_read_dir(self.image_bytes(), self.sb(), inode_num)
                == Err::<Seq<RawRecord>, Ext4Error>(e),
            r matches Ok(v) ==> (spec_read_dir(self.image_bytes(), self.sb(), inode_num) matches Ok(recs) && {
                &&& v@.len() == recs.len()
                &&& forall|i: int| 0 <= i < v@.len() ==> #[trigger] raw_view(v@[i]) == recs[i]
                &&& forall|i: int| 0 <= i < v@.len() ==> #[trigger] v@[i].inode != 0
            }),
    {
        let inode = self.read_inode(inode_num)?;
        if !inode.is_directory() {
            return Err(Ext4Error::NotADirectory);
        }
        let blocks = inode.blocks();
        let ghost img = self.image_bytes();
        let ghost bs = self.sb().spec_block_size();
        let mut out: Vec<RawEntry> = Vec::new();
        let ghost mut recs: Seq<RawRecord> = Seq::empty();
        let mut k: usize = 0;
        assert(blocks@.subrange(0, 0) =~= Seq::<u64>::empty());
        assert(spec_read_dir(img, self.sb(), inode_num) == spec_dir_records(img, bs, blocks@));
        while k < blocks.len()
            invariant
                self.wf(),
                spec_read_dir(img, self.sb(), inode_num) == spec_dir_records(img, bs, blocks@),
                img == self.image_bytes(),
                bs == self.sb().spec_block_size(),
                k <= blocks@.len(),
                spec_dir_records(img, bs, blocks@.subrange(0, k as int)) == Ok::<Seq<RawRecord>, Ext4Error>(recs),
                out@.len() == recs.len(),
                forall|i: int| 0 <= i < out@.len() ==> #[trigger] raw_view(out@[i]) == recs[i],
                forall|i: int| 0 <= i < out@.len() ==> #[trigger] out@[i].inode != 0,
            decreases blocks@.len() - k,
        {
            let blk = blocks[k];
            assert(blocks@.subrange(0, k + 1).drop_last() =~= blocks@.subrange(0, k as int));
            if blk != 0 {
                let data = match self.read_block(blk) {
                    Ok(d) => d,
                    Err(e) => {
                        proof {
                            assert(blocks@.subrange(0, k + 1).last() == blk);
                            assert(spec_dir_records(img, bs, blocks@.subrange(0, k + 1)) == Err::<Seq<RawRecord>, Ext4Error>(e));
                            lemma_dir_records_err_prefix(img, bs, blocks@, k + 1, e);
                        }
                        return Err(e);
                    },
                };
                let found = scan_block(data);
                let ghost base = recs;
                let ghost base_len = out@.len();
                let dlen = data.len();
                let mut j: usize = 0;
                while j < found.len()
                    invariant
                        dlen == data@.len(),
                        j <= found@.len(),
                        found@.map_values(|p: (usize, DirentHeader)| located_record(data@, p)) == scan_records(data@, 0),
                        forall|i: int| 0 <= i < found@.len() ==> #[trigger] found@[i].0 + 8 + found@[i].1.name_len <= data@.len(),
                        forall|i: int| 0 <= i < found@.len() ==> #[trigger] found@[i].1.inode != 0,
                        base.len() == base_len,
                        out@.len() == base_len + j,
                        forall|i: int| 0 <= i < base_len ==> #[trigger] raw_view(out@[i]) == base[i],
                        forall|i: int| 0 <= i < j ==> #[trigger] raw_view(out@[base_len + i]) == located_record(data@, found@[i]),
                        forall|i: int| 0 <= i < out@.len() ==> #[trigger] out@[i].inode != 0,
                    decreases found@.len() - j,
                {
                    let (pos, h) = found[j];
                    assert(found@[j as int].0 + 8 + found@[j as int].1.name_len <= data@.len());
                    let name = vstd::slice::slice_to_vec(
                        vstd::slice::slice_subrange(data, pos + 8, pos + 8 + h.name_len as usize),
                    );
                    out.push(RawEntry { inode: h.inode, name, file_type: h.file_type });
                    j = j + 1;
                }
                proof {
                    let added = scan_records(data@, 0);
                    assert(added.len() == found@.len());
                    recs = base + added;
                    assert forall|i: int| 0 <= i < out@.len() implies #[trigger] raw_view(out@[i]) == recs[i] by {
                        if i >= base_len {
                            assert(raw_view(out@[base_len + (i - base_len)]) == located_record(data@, found@[i - base_len]));
                        }
                    }
                }
            } else {
            }
            k = k + 1;
        }
        assert(blocks@.subrange(0, blocks@.len() as int) =~= blocks@);
        Ok(out)
    }

    /// Lists directory inode `inode_num`: its records in block order, each
    /// name decoded leniently.
    ///
    /// Fails with `NotADirectory` where the inode's mode is not a directory,
    /// and with the error of any inode or block read that fails.
    pub fn read_dir(&self, inode_num: u32) -> (r: Result<Vec<DirectoryEntry>, Ext4Error>)
        requires
            self.wf(),
            inode_num >= 1,
        ensures
            r is Ok <==> spec_read_dir(self.image_bytes(), self.sb(), inode_num) is Ok,
            r matches Err(e) ==> spec_read_dir(self.image_bytes(), self.sb(), inode_num)
                == Err::<Seq<RawRecord>, Ext4Error>(e),
            r matches Ok(v) ==> (spec_read_dir(self.image_bytes(), self.sb(), inode_num) matches Ok(recs) && {
                &&& v@.len() == recs.len()
                &&& forall|i: int| 0 <= i < v@.len() ==> {
                    &&& #[trigger] v@[i].inode == recs[i].0
                    &&& v@[i].name@ == lossy_utf8(recs[i].1)
                    &&& v@[i].file_type == recs[i].2
                }
            }),
    {
        let raw = self.read_dir_raw(inode_num)?;
        let mut out: Vec<DirectoryEntry> = Vec::new();
        let mut i: usize = 0;
        while i < raw.len()
            invariant
                i <= raw@.len(),
                out@.len() == i,
                forall|j: int| 0 <= j < i ==> {
                    &&& #[trigger] out@[j].inode == raw@[j].inode
                    &&& out@[j].name@ == lossy_utf8(raw@[j].name@)
                    &&& out@[j].file_type == raw@[j].file_type
                },
            decreases raw@.len() - i,
        {
            let e = &raw[i];
            let name = decode_lossy(e.name.as_slice());
            out.push(DirectoryEntry { inode: e.inode, name, file_type: e.file_type });
            i = i + 1;
        }
        proof {
            let recs = spec_read_dir(self.image_bytes(), self.sb(), inode_num)->Ok_0;
            assert forall|j: int| 0 <= j < out@.len() implies {
                &&& #[trigger] out@[j].inode == recs[j].0
                &&& out@[j].name@ == lossy_utf8(recs[j].1)
                &&& out@[j].file_type == recs[j].2
            } by {
                assert(raw_view(raw@[j]) == recs[j]);
            }
        }
        Ok(out)
    }

    /// Looks `name` up in directory inode `dir`: the inode of its first
    /// record with exactly these name bytes, if any.
    pub fn lookup(&self, dir: u32, name: &[u8]) -> (r: Result<Option<u32>, Ext4Error>)
        requires
            self.wf(),
            dir >= 1,
        ensures
            r is Ok <==> spec_read_dir(self.image_bytes(), self.sb(), dir) is Ok,
            r matches Err(e) ==> spec_read_dir(self.image_bytes(), self.sb(), dir) == Err::<Seq<RawRecord>, Ext4Error>(e),
            r matches Ok(found) ==> (spec_read_dir(self.image_bytes(), self.sb(), dir) matches Ok(recs)
                && found == first_match(recs, name@)),
            r matches Ok(Some(n)) ==> n >= 1,
    {
        let raw = self.read_dir_raw(dir)?;
        let ghost recs = spec_read_dir(self.image_bytes(), self.sb(), dir)->Ok_0;
        let mut i: usize = 0;
        assert(recs.subrange(0, recs.len() as int) =~= recs);
        while i < raw.len()
            invariant
                spec_read_dir(self.image_bytes(), self.sb(), dir) == Ok::<Seq<RawRecord>, Ext4Error>(recs),
                i <= raw@.len(),
                raw@.len() == recs.len(),
                forall|j: int| 0 <= j < raw@.len() ==> #[trigger] raw_view(raw@[j]) == recs[j],
                forall|j: int| 0 <= j < raw@.len() ==> #[trigger] raw@[j].inode != 0,
                first_match(recs, name@) == first_match(recs.subrange(i as int, recs.len() as int), name@),
            decreases raw@.len() - i,
        {
            assert(recs.subrange(i as int, recs.len() as int).drop_first() =~= recs.subrange(i + 1, recs.len() as int));
            assert(recs.subrange(i as int, recs.len() as int)[0] == recs[i as int]);
            assert(raw_view(raw@[i as int]) == recs[i as int]);
            if bytes_equal(raw[i].name.as_slice(), name) {
                return Ok(Some(raw[i].inode));
            }
            i = i + 1;
        }
        assert(recs.subrange(i as int, recs.len() as int) =~= Seq::<RawRecord>::empty());
        Ok(None)
    }

    /// The inode number that `path` names: each non-empty component is
    /// looked up in turn from the root directory.
    ///
    /// Fails with `NotFound(k)` where component `k` is missing from its
    /// parent, and with the error of any directory read that fails.
    pub fn resolve_inode(&self, path: &str) -> (r: Result<u32, Ext4Error>)
        requires
            self.wf(),
        ensures
            r == spec_resolve(self.image_bytes(), self.sb(), path.spec_bytes()),
            r matches Ok(n) ==> n >= 1,
    {
        let bytes = path.as_bytes();
        let comps = split_path(bytes);
        let mut cur: u32 = ROOT_INODE;
        let ghost all = path_components(bytes@);
        let mut k: usize = 0;
        while k < comps.len()
            invariant
                self.wf(),
                k <= comps@.len(),
                all == path_components(path.spec_bytes()),
                comps@.len() == all.len(),
                forall|i: int| 0 <= i < comps@.len() ==> #[trigger] comps@[i]@ == all[i],
                cur >= 1,
                spec_walk(self.image_bytes(), self.sb(), ROOT_INODE, all, 0)
                    == spec_walk(self.image_bytes(), self.sb(), cur, all, k as int),
            decreases comps@.len() - k,
        {
            assert(comps@[k as int]@ == all[k as int]);
            let ghost img = self.image_bytes();
            let ghost sb = self.sb();
            match self.lookup(cur, comps[k].as_slice()) {
                Err(e) => {
                    assert(spec_walk(img, sb, cur, all, k as int) == Err::<u32, Ext4Error>(e));
                    return Err(e);
                },
                Ok(None) => {
                    assert(spec_walk(img, sb, cur, all, k as int) == Err::<u32, Ext4Error>(Ext4Error::NotFound(k)));
                    return Err(Ext4Error::NotFound(k));
                },
                Ok(Some(next)) => {
                    cur = next;
                },
            }
            k = k + 1;
        }
        Ok(cur)
    }

    /// Reads and decodes the inode that `path` names; `"/"` is the root.
    pub fn resolve_path(&self, path: &str) -> (r: Result<Inode, Ext4Error>)
        requires
            self.wf(),
        ensures
            r is Ok <==> spec_resolve_path(self.image_bytes(), self.sb(), path.spec_bytes()) is Ok,
            r matches Err(e) ==> spec_resolve_path(self.image_bytes(), self.sb(), path.spec_bytes())
                == Err::<(u16, u32, Seq<u64>), Ext4Error>(e),
            r matches Ok(i) ==> spec_resolve_path(self.image_bytes(), self.sb(), path.spec_bytes())
                == Ok::<(u16, u32, Seq<u64>), Ext4Error>((i.mode, i.size, i.block_list())),
    {
        let bytes = path.as_bytes();
        if bytes.len() == 1 && bytes[0] == 0x2F {
            proof {
                assert(bytes@ =~= seq![0x2Fu8]);
                lemma_root_path(self.image_bytes(), self.sb());
            }
            return self.read_inode(ROOT_INODE);
        }
        let n = self.resolve_inode(path)?;
        self.read_inode(n)
    }

    /// Lists the directory that `path` names.
    pub fn list_dir(&self, path: &str) -> (r: Result<Vec<DirectoryEntry>, Ext4Error>)
        requires
            self.wf(),
        ensures
            r is Ok <==> spec_list_dir(self.image_bytes(), self.sb(), path.spec_bytes()) is Ok,
            r matches Err(e) ==> spec_list_dir(self.image_bytes(), self.sb(), path.spec_bytes())
                == Err::<Seq<RawRecord>, Ext4Error>(e),
            r matches Ok(v) ==> (spec_list_dir(self.image_bytes(), self.sb(), path.spec_bytes()) matches Ok(recs) && {
                &&& v@.len() == recs.len()
                &&& forall|i: int| 0 <= i < v@.len() ==> {
                    &&& #[trigger] v@[i].inode == recs[i].0
                    &&& v@[i].name@ == lossy_utf8(recs[i].1)
                    &&& v@[i].file_type == recs[i].2
                }
            }),
    {
        let n = self.resolve_inode(path)?;
        self.read_dir(n)
    }

    /// The contents of the regular file that `path` names: its non-zero
    /// blocks in order, cut to the size that the inode records.
    ///
    /// Fails with `NotARegularFile` where the inode's mode is not a regular
    /// file, and with the error of any lookup or read that fails.
    pub fn read_file(&self, path: &str) -> (r: Result<Vec<u8>, Ext4Error>)
        requires
            self.wf(),
        ensures
            match r {
                Ok(v) => spec_read_file(self.image_bytes(), self.sb(), path.spec_bytes()) == Ok::<Seq<u8>, Ext4Error>(v@),
                Err(e) => spec_read_file(self.image_bytes(), self.sb(), path.spec_bytes()) == Err::<Seq<u8>, Ext4Error>(e),
            },
    {
        let inode = self.resolve_path(path)?;
        if !inode.is_regular_file() {
            return Err(Ext4Error::NotARegularFile);
        }
        let blocks = inode.blocks();
        let ghost img = self.image_bytes();
        let ghost bs = self.sb().spec_block_size();
        let ghost target = spec_resolve_path(img, self.sb(), path.spec_bytes());
        assert(target == Ok::<(u16, u32, Seq<u64>), Ext4Error>((inode.mode, inode.size, blocks@)));
        let mut out: Vec<u8> = Vec::new();
        let mut k: usize = 0;
        assert(blocks@.subrange(0, 0) =~= Seq::<u64>::empty());
        while k < blocks.len()
            invariant
                self.wf(),
                img == self.image_bytes(),
                bs == self.sb().spec_block_size(),
                k <= blocks@.len(),
                target == spec_resolve_path(img, self.sb(), path.spec_bytes()),
                target == Ok::<(u16, u32, Seq<u64>), Ext4Error>((inode.mode, inode.size, blocks@)),
                Inode::spec_is_regular(inode.mode),
                spec_file_bytes(img, bs, blocks@.subrange(0, k as int)) == Ok::<Seq<u8>, Ext4Error>(out@),
            decreases blocks@.len() - k,
        {
            let blk = blocks[k];
            assert(blocks@.subrange(0, k + 1).drop_last() =~= blocks@.subrange(0, k as int));
            if blk != 0 {
                let data = match self.read_block(blk) {
                    Ok(d) => d,
                    Err(e) => {
                        proof {
                            assert(blocks@.subrange(0, k + 1).last() == blk);
                            lemma_file_bytes_err_prefix(img, bs, blocks@, k + 1, e);
                        }
                        return Err(e);
                    },
                };
                let ghost base = out@;
                let mut j: usize = 0;
                while j < data.len()
                    invariant
                        j <= data@.len(),
                        out@ == base + data@.subrange(0, j as int),
                    decreases data@.len() - j,
                {
                    out.push(data[j]);
                    j = j + 1;
                    assert(out@ =~= base + data@.subrange(0, j as int));
                }
                assert(data@.subrange(0, data@.len() as int) =~= data@);
                assert(blocks@.subrange(0, k + 1).last() == blk);
            }
            k = k + 1;
        }
        assert(blocks@.subrange(0, blocks@.len() as int) =~= blocks@);
        let size = inode.size as usize;
        if out.len() > size {
            out.truncate(size);
        }
        Ok(out)
    }
}

/// The mode, size and block list of the inode that path `p` names.
pub open spec fn spec_resolve_path(img: Seq<u8>, sb: Superblock, p: Seq<u8>) -> Result<(u16, u32, Seq<u64>), Ext4Error> {
    match spec_resolve(img, sb, p) {
        Err(e) => Err(e),
        Ok(n) => spec_read_inode(img, sb, n),
    }
}

/// The records of the directory that path `p` names.
pub open spec fn spec_list_dir(img: Seq<u8>, sb: Superblock, p: Seq<u8>) -> Result<Seq<RawRecord>, Ext4Error> {
    match spec_resolve(img, sb, p) {
        Err(e) => Err(e),
        Ok(n) => spec_read_dir(img, sb, n),
    }
}

/// The bytes of the non-zero blocks in `blocks`, one after another.
pub open spec fn spec_file_bytes(img: Seq<u8>, bs: int, blocks: Seq<u64>) -> Result<Seq<u8>, Ext4Error>
    decreases blocks.len(),
{
    if blocks.len() == 0 {
        Ok(Seq::empty())
    } else {
        match spec_file_bytes(img, bs, blocks.drop_last()) {
            Err(e) => Err(e),
            Ok(prev) => if blocks.last() == 0 {
                Ok(prev)
            } else {
                match spec_read(img, blocks.last() * bs, bs) {
                    Err(e) => Err(e),
                    Ok(data) => Ok(prev + data),
                }
            },
        }
    }
}

/// The contents of the regular file that path `p` names.
pub open spec fn spec_read_file(img: Seq<u8>, sb: Superblock, p: Seq<u8>) -> Result<Seq<u8>, Ext4Error> {
    match spec_resolve_path(img, sb, p) {
        Err(e) => Err(e),
        Ok((mode, size, blocks)) => if !Inode::spec_is_regular(mode) {
            Err(Ext4Error::NotARegularFile)
        } else {
            match spec_file_bytes(img, sb.spec_block_size(), blocks) {
                Err(e) => Err(e),
                Ok(data) => Ok(if data.len() > size { data.subrange(0, size as int) } else { data }),
            }
        },
    }
}

/// An error met on a prefix of the block list is the error of the whole list.
proof fn lemma_file_bytes_err_prefix(img: Seq<u8>, bs: int, blocks: Seq<u64>, k: int, e: Ext4Error)
    requires
        0 <= k <= blocks.len(),
        spec_file_bytes(img, bs, blocks.subrange(0, k)) == Err::<Seq<u8>, Ext4Error>(e),
    ensures
        spec_file_bytes(img, bs, blocks) == Err::<Seq<u8>, Ext4Error>(e),
    decreases blocks.len(),
{
    if k == blocks.len() {
        assert(blocks.subrange(0, k) =~= blocks);
    } else {
        assert(blocks.drop_last().subrange(0, k) =~= blocks.subrange(0, k));
        lemma_file_bytes_err_prefix(img, bs, blocks.drop_last(), k, e);
    }
}

/// The path `/` names the root directory, inode 2, whatever the image holds.
pub proof fn lemma_root_path(img: Seq<u8>, sb: Superblock)
    ensures
        spec_resolve(img, sb, seq![0x2Fu8]) == Ok::<u32, Ext4Error>(ROOT_INODE),
        spec_resolve_path(img, sb, seq![0x2Fu8]) == spec_read_inode(img, sb, ROOT_INODE),
{
    let p = seq![0x2Fu8];
    assert(components_from(p, 1, 1) =~= Seq::<Seq<u8>>::empty());
    assert(components_from(p, 0, 0) =~= Seq::<Seq<u8>>::empty());
}

} // verus!
