//! Directory records: the variable-length entries stored in a directory's blocks.
use vstd::prelude::*;
use crate::bytes::{le16, le32, read_u16_le, read_u32_le};
use crate::text::{decode_lossy, lossy_utf8};

verus! {

/// Length of the fixed part of a directory record; the name follows it.
pub const DIRENT_HEADER_LEN: usize = 8;

const OFFSET_INODE: usize = 0;
const OFFSET_REC_LEN: usize = 4;
const OFFSET_NAME_LEN: usize = 6;
const OFFSET_FILE_TYPE: usize = 7;

pub const FT_REG_FILE: u8 = 1;
pub const FT_DIR: u8 = 2;
pub const FT_CHRDEV: u8 = 3;
pub const FT_BLKDEV: u8 = 4;
pub const FT_FIFO: u8 = 5;
pub const FT_SOCK: u8 = 6;
pub const FT_SYMLINK: u8 = 7;

/// The fixed part of a directory record.
#[derive(Debug, Clone, Copy, PartialEq, Eq, Structural)]
pub struct DirentHeader {
    pub inode: u32,
    /// Bytes from the start of this record to the start of the next one.
    pub rec_len: u16,
    pub name_len: u8,
    pub file_type: u8,
}

/// A decoded directory entry.
#[derive(Debug, Clone)]
pub struct DirectoryEntry {
    pub inode: u32,
    pub name: String,
    pub file_type: u8,
}

/// What a directory record holds: inode number, raw name bytes, file type.
pub type RawRecord = (u32, Seq<u8>, u8);

/// The header of the record at the start of `b`, where `b` holds a valid one.
///
/// A record is refused when `b` is shorter than the header, when its inode is
/// zero (an unused slot) or its record length is zero, or when `b` cannot hold
/// its name or its whole record.
pub open spec fn spec_dirent_header(b: Seq<u8>) -> Option<DirentHeader> {
    if b.len() < 8 {
        None
    } else {
        let h = DirentHeader {
            inode: le32(b, 0) as u32,
            rec_len: le16(b, 4) as u16,
            name_len: b[6],
            file_type: b[7],
        };
        if h.inode == 0 || h.rec_len == 0 || b.len() < 8 + h.name_len || b.len() < h.rec_len {
            None
        } else {
            Some(h)
        }
    }
}

/// The name bytes of a record whose header `h` starts `b`.
pub open spec fn record_name(b: Seq<u8>, h: DirentHeader) -> Seq<u8> {
    b.subrange(8, 8 + h.name_len)
}

/// The records of a directory block from byte `pos` on, up to the end of the
/// block or to the first slot that does not decode.
pub open spec fn scan_records(b: Seq<u8>, pos: int) -> Seq<RawRecord>
    decreases b.len() - pos,
{
    if pos < 0 || pos >= b.len() {
        Seq::empty()
    } else {
        match spec_dirent_header(b.subrange(pos, b.len() as int)) {
            None => Seq::empty(),
            Some(h) => if h.rec_len > 0 {
                seq![(h.inode, b.subrange(pos + 8, pos + 8 + h.name_len), h.file_type)]
                    + scan_records(b, pos + h.rec_len)
            } else {
                Seq::empty()
            },
        }
    }
}

/// The record that a scan found at offset `p.0` with header `p.1`.
pub open spec fn located_record(b: Seq<u8>, p: (usize, DirentHeader)) -> RawRecord {
    (p.1.inode, b.subrange(p.0 + 8, p.0 + 8 + p.1.name_len), p.1.file_type)
}

/// Decodes the header of the record at the start of `buf`.
pub fn parse_header(buf: &[u8]) -> (r: Option<DirentHeader>)
    ensures
        r == spec_dirent_header(buf@),
{
    if buf.len() < DIRENT_HEADER_LEN {
        return None;
    }
    let inode = read_u32_le(buf, OFFSET_INODE);
    let rec_len = read_u16_le(buf, OFFSET_REC_LEN);
    let name_len = buf[OFFSET_NAME_LEN];
    let file_type = buf[OFFSET_FILE_TYPE];
    if inode == 0 || rec_len == 0 || buf.len() < DIRENT_HEADER_LEN + name_len as usize
        || buf.len() < rec_len as usize {
        return None;
    }
    Some(DirentHeader { inode, rec_len, name_len, file_type })
}

/// Finds the records of one directory block, as pairs of offset and header,
/// stopping at the end of the block or at the first slot that does not decode.
pub fn scan_block(buf: &[u8]) -> (r: Vec<(usize, DirentHeader)>)
    ensures
        r@.map_values(|p: (usize, DirentHeader)| located_record(buf@, p)) == scan_records(buf@, 0),
        forall|i: int| 0 <= i < r@.len() ==> #[trigger] r@[i].0 + 8 + r@[i].1.name_len <= buf@.len(),
        forall|i: int| 0 <= i < r@.len() ==> #[trigger] r@[i].1.inode != 0,
{
    let mut r: Vec<(usize, DirentHeader)> = Vec::new();
    let mut cursor: usize = 0;
    let len = buf.len();
    while cursor < len
        invariant
            len == buf@.len(),
            cursor <= len,
            r@.map_values(|p: (usize, DirentHeader)| located_record(buf@, p)) + scan_records(buf@, cursor as int)
                == scan_records(buf@, 0),
            forall|i: int| 0 <= i < r@.len() ==> #[trigger] r@[i].0 + 8 + r@[i].1.name_len <= buf@.len(),
            forall|i: int| 0 <= i < r@.len() ==> #[trigger] r@[i].1.inode != 0,
        ensures
            r@.map_values(|p: (usize, DirentHeader)| located_record(buf@, p)) + scan_records(buf@, cursor as int)
                == scan_records(buf@, 0),
            scan_records(buf@, cursor as int) == Seq::<RawRecord>::empty(),
        decreases len - cursor,
    {
        let rest = vstd::slice::slice_subrange(buf, cursor, len);
        match parse_header(rest) {
            None => {
                assert(scan_records(buf@, cursor as int) =~= Seq::<RawRecord>::empty());
                break;
            },
            Some(h) => {
                let ghost before = r@.map_values(|p: (usize, DirentHeader)| located_record(buf@, p));
                let ghost rec = located_record(buf@, (cursor, h));
                assert(scan_records(buf@, cursor as int) == seq![rec] + scan_records(buf@, cursor + h.rec_len));
                r.push((cursor, h));
                assert(r@.map_values(|p: (usize, DirentHeader)| located_record(buf@, p)) =~= before.push(rec));
                assert(before.push(rec) + scan_records(buf@, cursor + h.rec_len)
                    =~= before + (seq![rec] + scan_records(buf@, cursor + h.rec_len)));
                cursor = cursor + h.rec_len as usize;
            },
        }
    }
    assert(r@.map_values(|p: (usize, DirentHeader)| located_record(buf@, p)) + Seq::<RawRecord>::empty()
        =~= r@.map_values(|p: (usize, DirentHeader)| located_record(buf@, p)));
    r
}

impl DirectoryEntry {
    /// Decodes the record at the start of `buf`, returning the entry and the
    /// number of bytes to advance to the next record.
    pub fn parse(buf: &[u8]) -> (r: Option<(DirectoryEntry, usize)>)
        ensures
            spec_dirent_header(buf@) is None ==> r is None,
            spec_dirent_header(buf@) matches Some(h) ==> (r matches Some((e, n)) && {
                &&& e.inode == h.inode
                &&& e.file_type == h.file_type
                &&& e.name@ == lossy_utf8(record_name(buf@, h))
                &&& n == h.rec_len
            }),
    {
        match parse_header(buf) {
            None => None,
            Some(h) => {
                let name_bytes = vstd::slice::slice_subrange(buf, DIRENT_HEADER_LEN, DIRENT_HEADER_LEN + h.name_len as usize);
                let name = decode_lossy(name_bytes);
                Some((DirectoryEntry { inode: h.inode, name, file_type: h.file_type }, h.rec_len as usize))
            },
        }
    }

    pub fn is_directory(&self) -> (r: bool)
        ensures
            r == (self.file_type == FT_DIR),
    {
        self.file_type == FT_DIR
    }

    pub fn is_file(&self) -> (r: bool)
        ensures
            r == (self.file_type == FT_REG_FILE),
    {
        self.file_type == FT_REG_FILE
    }

    pub fn is_symlink(&self) -> (r: bool)
        ensures
            r == (self.file_type == FT_SYMLINK),
    {
        self.file_type == FT_SYMLINK
    }

    pub fn is_char_device(&self) -> (r: bool)
        ensures
            r == (self.file_type == FT_CHRDEV),
    {
        self.file_type == FT_CHRDEV
    }

    pub fn is_block_device(&self) -> (r: bool)
        ensures
            r == (self.file_type == FT_BLKDEV),
    {
        self.file_type == FT_BLKDEV
    }

    pub fn is_fifo(&self) -> (r: bool)
        ensures
            r == (self.file_type == FT_FIFO),
    {
        self.file_type == FT_FIFO
    }

    pub fn is_socket(&self) -> (r: bool)
        ensures
            r == (self.file_type == FT_SOCK),
    {
        self.file_type == FT_SOCK
    }
}

/// The bytes of a directory record: header, name, then zero padding up to
/// `rec_len`.
pub open spec fn encode_dirent(inode: u32, rec_len: u16, file_type: u8, name: Seq<u8>) -> Seq<u8> {
    seq![
        (inode % 256) as u8,
        (inode / 256 % 256) as u8,
        (inode / 65536 % 256) as u8,
        (inode / 16777216) as u8,
        (rec_len % 256) as u8,
        (rec_len / 256) as u8,
        name.len() as u8,
        file_type,
    ] + name + Seq::new((rec_len - 8 - name.len()) as nat, |i: int| 0u8)
}

/// Decoding an encoded record gives back its inode, record length, name and
/// file type, and consumes exactly the record.
pub proof fn lemma_dirent_round_trip(inode: u32, rec_len: u16, file_type: u8, name: Seq<u8>)
    requires
        inode != 0,
        name.len() <= 255,
        8 + name.len() <= rec_len,
    ensures
        encode_dirent(inode, rec_len, file_type, name).len() == rec_len,
        spec_dirent_header(encode_dirent(inode, rec_len, file_type, name)) == Some(
            DirentHeader { inode, rec_len, name_len: name.len() as u8, file_type },
        ),
        record_name(
            encode_dirent(inode, rec_len, file_type, name),
            DirentHeader { inode, rec_len, name_len: name.len() as u8, file_type },
        ) == name,
{
    let b = encode_dirent(inode, rec_len, file_type, name);
    let x = inode as int;
    assert(x % 256 + 256 * (x / 256 % 256) == x % 65536) by (nonlinear_arith)
        requires 0 <= x;
    assert(x / 65536 % 256 + 256 * (x / 16777216) == x / 65536) by (nonlinear_arith)
        requires 0 <= x;
    assert(x % 65536 + 65536 * (x / 65536) == x) by (nonlinear_arith)
        requires 0 <= x;
    let y = rec_len as int;
    assert(y % 256 + 256 * (y / 256) == y) by (nonlinear_arith)
        requires 0 <= y;
    assert(le32(b, 0) == x);
    assert(le16(b, 4) == y);
    assert(b.subrange(8, 8 + name.len() as int) =~= name);
}

} // verus!
