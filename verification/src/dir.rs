//! Directory entries: variable-length records inside a directory's data
//! blocks.
//!
//! Each record holds the target inode number, the byte span it occupies
//! (which locates the next record), a type code and a name. A record length
//! that would run the cursor past the containing block is the mark of a
//! corrupt or adversarial directory and stops the decoder; an inode number
//! of zero marks a deleted slot that iteration skips. "." and ".." are
//! ordinary entries here — filtering them is the caller's concern.

use vstd::prelude::*;

use crate::bytes::{le16, le32, read_le16, read_le32};
use crate::error::UfsError;
use crate::inode::{ino_mode, ino_size, kind_from_code, kind_from_mode, kind_of_code, InodeNum, InodeType};
use crate::resolve::{bmap_spec, BlockPtr};
use crate::superblock::Superblock;

verus! {

/// One decoded directory entry.
#[derive(Debug)]
pub struct DirEntry {
    /// Target inode number; never zero in decoded output.
    pub inr: InodeNum,
    /// The entry's type code, decoded.
    pub kind: InodeType,
    /// The name: a byte string, not assumed to be valid text.
    pub name: Vec<u8>,
}

impl View for DirEntry {
    type V = (u64, InodeType, Seq<u8>);

    open spec fn view(&self) -> (u64, InodeType, Seq<u8>) {
        (self.inr.0, self.kind, self.name@)
    }
}

/// The entries of one directory block, read from cursor position `pos` to
/// the block's end: `None` when a record's length field is unaligned, too
/// small for its name, or would overrun the block. Deleted slots (inode
/// number zero) are consumed but yield no entry.
pub open spec fn parse_dir_block(b: Seq<u8>, pos: int) -> Option<Seq<(u64, InodeType, Seq<u8>)>>
    decreases b.len() - pos,
{
    if pos == b.len() {
        Some(Seq::empty())
    } else if pos + 8 > b.len() {
        None
    } else {
        let ino = le32(b, pos);
        let reclen = le16(b, pos + 4) as int;
        let nlen = b[pos + 7] as int;
        if reclen < 8 + nlen || reclen % 4 != 0 || pos + reclen > b.len() {
            None
        } else {
            match parse_dir_block(b, pos + reclen) {
                None => None,
                Some(rest) => if ino == 0 {
                    Some(rest)
                } else {
                    Some(
                        seq![
                            (
                                ino as u64,
                                kind_from_code(b[pos + 6] as nat),
                                b.subrange(pos + 8, pos + 8 + nlen),
                            )
                        ] + rest,
                    )
                },
            }
        }
    }
}

/// No decoded entry carries inode number zero: deleted slots never surface.
pub proof fn lemma_parse_no_zero(b: Seq<u8>, pos: int)
    requires
        parse_dir_block(b, pos) is Some,
    ensures
        forall|q: int|
            0 <= q < parse_dir_block(b, pos)->Some_0.len() ==> #[trigger] parse_dir_block(
                b,
                pos,
            )->Some_0[q].0 != 0,
    decreases b.len() - pos,
{
    if pos == b.len() {
    } else {
        let reclen = le16(b, pos + 4) as int;
        lemma_parse_no_zero(b, pos + reclen);
    }
}

/// Number of data blocks a directory of `size` bytes occupies.
pub open spec fn dir_nblk(size: int, bsize: int) -> int {
    if size == 0 {
        0
    } else {
        (size - 1) / bsize + 1
    }
}

/// Bytes of directory block `lbn` that belong to the directory: a full
/// block, or the declared tail.
pub open spec fn dir_blen(size: int, bsize: int, lbn: int) -> int {
    if size - lbn * bsize < bsize {
        size - lbn * bsize
    } else {
        bsize
    }
}

/// The raw bytes of directory block `lbn`: resolved block content, zeros
/// for a hole, or the resolver's error.
pub open spec fn dir_block_bytes(
    img: Seq<u8>,
    sb: Superblock,
    inr: u64,
    size: int,
    lbn: int,
) -> Result<Seq<u8>, UfsError> {
    let blen = dir_blen(size, sb.bsize as int, lbn);
    match bmap_spec(img, sb, inr, lbn as u64) {
        Err(e) => Err(e),
        Ok(BlockPtr::Hole) => Ok(Seq::new(blen as nat, |x: int| 0u8)),
        Ok(BlockPtr::Frag(f)) => if f * sb.fsize + blen <= sb.vol_bytes() {
            Ok(img.subrange(f * sb.fsize, f * sb.fsize + blen))
        } else {
            Err(UfsError::Io)
        },
    }
}

/// The decoded entries of directory blocks `lbn .. nblk`, in on-disk order.
pub open spec fn dir_blocks_entries(
    img: Seq<u8>,
    sb: Superblock,
    inr: u64,
    size: int,
    lbn: int,
    nblk: int,
) -> Result<Seq<(u64, InodeType, Seq<u8>)>, UfsError>
    decreases nblk - lbn,
{
    if lbn >= nblk {
        Ok(Seq::empty())
    } else {
        match dir_block_bytes(img, sb, inr, size, lbn) {
            Err(e) => Err(e),
            Ok(bytes) => match parse_dir_block(bytes, 0) {
                None => Err(UfsError::Corrupt),
                Some(es) => match dir_blocks_entries(img, sb, inr, size, lbn + 1, nblk) {
                    Err(e) => Err(e),
                    Ok(rest) => Ok(es + rest),
                },
            },
        }
    }
}

pub proof fn lemma_blocks_no_zero(
    img: Seq<u8>,
    sb: Superblock,
    inr: u64,
    size: int,
    lbn: int,
    nblk: int,
)
    requires
        dir_blocks_entries(img, sb, inr, size, lbn, nblk) is Ok,
    ensures
        forall|q: int|
            0 <= q < dir_blocks_entries(img, sb, inr, size, lbn, nblk)->Ok_0.len()
                ==> #[trigger] dir_blocks_entries(img, sb, inr, size, lbn, nblk)->Ok_0[q].0 != 0,
    decreases nblk - lbn,
{
    if lbn >= nblk {
    } else {
        match dir_block_bytes(img, sb, inr, size, lbn) {
            Err(_) => {},
            Ok(bytes) => {
                lemma_parse_no_zero(bytes, 0);
                lemma_blocks_no_zero(img, sb, inr, size, lbn + 1, nblk);
            },
        }
    }
}

/// The full decoded entry sequence of the directory at inode `inr`: refused
/// outright for an invalid inode number, a non-directory inode, or a
/// declared size beyond the volume.
pub open spec fn dir_entries(img: Seq<u8>, sb: Superblock, inr: u64) -> Result<
    Seq<(u64, InodeType, Seq<u8>)>,
    UfsError,
> {
    let base = sb.ino_off(inr);
    let size = ino_size(img, base, sb.ufs2) as int;
    if !(1 <= inr < sb.icount) {
        Err(UfsError::NotFound)
    } else if kind_from_mode(ino_mode(img, base)) != InodeType::Directory {
        Err(UfsError::InvalidInput)
    } else if size > sb.vol_bytes() {
        Err(UfsError::Corrupt)
    } else {
        dir_blocks_entries(img, sb, inr, size, 0, dir_nblk(size, sb.bsize as int))
    }
}

/// The inode number of the first entry whose name equals `name`, in
/// on-disk order.
pub open spec fn find_entry(es: Seq<(u64, InodeType, Seq<u8>)>, name: Seq<u8>) -> Option<u64>
    decreases es.len(),
{
    if es.len() == 0 {
        None
    } else if es[0].2 == name {
        Some(es[0].0)
    } else {
        find_entry(es.drop_first(), name)
    }
}

/// What one lookup step returns: the first matching entry's inode number,
/// `NotFound` when the directory has no such name, or the directory's own
/// decoding error.
pub open spec fn lookup_one(img: Seq<u8>, sb: Superblock, cur: u64, name: Seq<u8>) -> Result<
    u64,
    UfsError,
> {
    match dir_entries(img, sb, cur) {
        Err(e) => Err(e),
        Ok(es) => match find_entry(es, name) {
            Some(n) => Ok(n),
            None => Err(UfsError::NotFound),
        },
    }
}

/// Position of the first path separator in `p`, or `p.len()` when there is
/// none.
pub open spec fn first_sep(p: Seq<u8>) -> nat
    decreases p.len(),
{
    if p.len() == 0 {
        0
    } else if p[0] == 47u8 {
        0
    } else {
        1 + first_sep(p.drop_first())
    }
}

pub proof fn lemma_first_sep_bounds(p: Seq<u8>)
    ensures
        0 <= first_sep(p) <= p.len(),
    decreases p.len(),
{
    if p.len() == 0 || p[0] == 47u8 {
    } else {
        lemma_first_sep_bounds(p.drop_first());
    }
}

pub proof fn lemma_first_sep_value(p: Seq<u8>, k: int)
    requires
        0 <= k <= p.len(),
        forall|j: int| 0 <= j < k ==> p[j] != 47u8,
        k < p.len() ==> p[k] == 47u8,
    ensures
        first_sep(p) == k,
    decreases p.len(),
{
    if p.len() == 0 {
    } else if p[0] == 47u8 {
    } else {
        lemma_first_sep_value(p.drop_first(), k - 1);
    }
}

/// The inode reached from `cur` by resolving the path `p` component by
/// component: empty components (repeated or trailing separators) are
/// skipped, every other component is looked up in the directory reached so
/// far.
pub open spec fn resolve_path(img: Seq<u8>, sb: Superblock, cur: u64, p: Seq<u8>) -> Result<
    u64,
    UfsError,
>
    decreases p.len(),
{
    if p.len() == 0 {
        Ok(cur)
    } else if p[0] == 47u8 {
        resolve_path(img, sb, cur, p.drop_first())
    } else {
        let k = first_sep_clipped(p);
        match lookup_one(img, sb, cur, p.subrange(0, k)) {
            Err(e) => Err(e),
            Ok(n) => resolve_path(img, sb, n, p.skip(k)),
        }
    }
}

/// `first_sep`, clipped into the sequence's range so that `resolve_path`'s
/// termination is structural.
pub open spec fn first_sep_clipped(p: Seq<u8>) -> int {
    if first_sep(p) <= p.len() {
        first_sep(p) as int
    } else {
        p.len() as int
    }
}

/// Decodes the entries of one directory block, mirroring
/// `parse_dir_block` record by record.
pub(crate) fn parse_block_entries(b: &Vec<u8>, pos: usize) -> (r: Result<Vec<DirEntry>, UfsError>)
    requires
        pos <= b.len(),
    ensures
        r is Ok <==> parse_dir_block(b@, pos as int) is Some,
        r matches Ok(v) ==> v@.len() == parse_dir_block(b@, pos as int)->Some_0.len(),
        r matches Ok(v) ==> forall|q: int|
            0 <= q < v@.len() ==> v@[q]@ == parse_dir_block(b@, pos as int)->Some_0[q],
        r matches Err(e) ==> e == UfsError::Corrupt,
    decreases b.len() - pos,
{
    if pos == b.len() {
        return Ok(Vec::new());
    }
    if b.len() - pos < 8 {
        return Err(UfsError::Corrupt);
    }
    let ino = read_le32(b, pos);
    let reclen = read_le16(b, pos + 4) as usize;
    let typ = b[pos + 6];
    let nlen = b[pos + 7] as usize;
    if reclen < 8 + nlen || reclen % 4 != 0 || reclen > b.len() - pos {
        return Err(UfsError::Corrupt);
    }
    let rest = match parse_block_entries(b, pos + reclen) {
        Ok(v) => v,
        Err(e) => {
            return Err(e);
        },
    };
    if ino == 0 {
        return Ok(rest);
    }
    let mut name: Vec<u8> = Vec::new();
    let mut k: usize = 0;
    while k < nlen
        invariant
            k <= nlen,
            pos + 8 + nlen <= b.len(),
            name@ == b@.subrange(pos as int + 8, pos as int + 8 + k),
        decreases nlen - k,
    {
        name.push(b[pos + 8 + k]);
        k = k + 1;
        proof {
            assert(name@ =~= b@.subrange(pos as int + 8, pos as int + 8 + k));
        }
    }
    let e = DirEntry { inr: InodeNum(ino as u64), kind: kind_of_code(typ), name };
    let mut out: Vec<DirEntry> = Vec::new();
    out.push(e);
    let mut rest = rest;
    out.append(&mut rest);
    proof {
        let es = parse_dir_block(b@, pos as int)->Some_0;
        let tail = parse_dir_block(b@, pos as int + reclen as int)->Some_0;
        assert forall|q: int| 0 <= q < out@.len() implies out@[q]@ == es[q] by {
            if q > 0 {
                assert(out@[q]@ == tail[q - 1]);
                assert(es[q] == tail[q - 1]);
            }
        }
    }
    Ok(out)
}

} // verus!
