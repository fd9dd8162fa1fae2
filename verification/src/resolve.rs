//! Address resolver: logical-to-physical block translation.
//!
//! A logical block index within a file resolves through the 12 direct
//! pointers, or through one, two or three levels of indirect blocks — each
//! indirect block an array of `bsize / pointer-size` pointers. A zero
//! pointer at any level is a hole: the region reads back as zeros. The
//! indirection depth is capped at three unconditionally, so corrupt pointer
//! data can never induce unbounded descent.

use vstd::prelude::*;

use vstd::arithmetic::div_mod::lemma_multiply_divide_lt;

use crate::blockreader::BlockReader;
use crate::bytes::{le32, le64, read_le32, read_le64};
use crate::error::UfsError;
use crate::inode::{ino_db, ino_ib, Inode};
use crate::superblock::Superblock;

verus! {

/// Where a logical block lives: nowhere (a hole, read as zeros), or at a
/// physical fragment address.
#[derive(Clone, Copy, Debug, PartialEq, Eq, Structural)]
pub enum BlockPtr {
    Hole,
    Frag(u64),
}

/// Number of logical blocks spanned by one pointer at indirection depth
/// `level`: `nindir ^ level`.
pub open spec fn span(nindir: int, level: nat) -> int
    decreases level,
{
    if level == 0 {
        1
    } else {
        nindir * span(nindir, (level - 1) as nat)
    }
}

/// The pointer stored in slot `slot` of the indirect block at fragment
/// address `p`.
pub open spec fn ind_ptr(img: Seq<u8>, sb: Superblock, p: u64, slot: int) -> u64 {
    if sb.ufs2 {
        le64(img, p * sb.fsize + 8 * slot) as u64
    } else {
        le32(img, p * sb.fsize + 4 * slot) as u64
    }
}

/// Descends `level` remaining levels of indirection below pointer `ptr`,
/// looking up logical index `idx` of that subtree. A zero pointer denotes a
/// hole; an indirect block outside the volume is an I/O failure.
pub open spec fn resolve_level(
    img: Seq<u8>,
    sb: Superblock,
    ptr: u64,
    idx: int,
    level: nat,
) -> Result<BlockPtr, UfsError>
    decreases level,
{
    if ptr == 0 {
        Ok(BlockPtr::Hole)
    } else if level == 0 {
        Ok(BlockPtr::Frag(ptr))
    } else if ptr * sb.fsize + sb.bsize > sb.vol_bytes() {
        Err(UfsError::Io)
    } else {
        let sub = span(sb.nindir(), (level - 1) as nat);
        resolve_level(img, sb, ind_ptr(img, sb, ptr, idx / sub), idx % sub, (level - 1) as nat)
    }
}

/// The physical location of logical block `lbn` of the file whose inode is
/// `inr`: a direct pointer for the first 12 blocks, then the three indirect
/// spans in turn. A logical block beyond the triple-indirect span cannot
/// belong to any well-formed file and is reported as corrupt.
pub open spec fn bmap_spec(img: Seq<u8>, sb: Superblock, inr: u64, lbn: u64) -> Result<
    BlockPtr,
    UfsError,
> {
    let base = sb.ino_off(inr);
    let nd = sb.nindir();
    if lbn < 12 {
        let p = ino_db(img, base, sb.ufs2, lbn as int);
        if p == 0 {
            Ok(BlockPtr::Hole)
        } else {
            Ok(BlockPtr::Frag(p as u64))
        }
    } else if lbn - 12 < nd {
        resolve_level(img, sb, ino_ib(img, base, sb.ufs2, 0) as u64, lbn - 12, 1)
    } else if lbn - 12 - nd < nd * nd {
        resolve_level(img, sb, ino_ib(img, base, sb.ufs2, 1) as u64, lbn - 12 - nd, 2)
    } else if lbn - 12 - nd - nd * nd < nd * nd * nd {
        resolve_level(img, sb, ino_ib(img, base, sb.ufs2, 2) as u64, lbn - 12 - nd - nd * nd, 3)
    } else {
        Err(UfsError::Corrupt)
    }
}

/// The content of file byte `p` of the file whose inode is `inr`: the byte
/// of the resolved physical block, or zero within a hole. Unresolvable
/// positions are given an arbitrary fixed value; reads report them as errors
/// instead of returning data.
pub open spec fn file_byte(img: Seq<u8>, sb: Superblock, inr: u64, p: int) -> u8 {
    let lbn = p / sb.bsize as int;
    let inoff = p % sb.bsize as int;
    match bmap_spec(img, sb, inr, lbn as u64) {
        Ok(BlockPtr::Hole) => 0,
        Ok(BlockPtr::Frag(f)) => if f * sb.fsize + inoff < sb.vol_bytes() {
            img[f * sb.fsize + inoff]
        } else {
            0
        },
        Err(_) => 0,
    }
}

/// Last in-block byte position (exclusive) that a read of `n` bytes from
/// file offset `off` touches within logical block `lbn`.
pub open spec fn blk_hi(off: int, n: int, bsize: int, lbn: int) -> int {
    (if off + n < (lbn + 1) * bsize {
        off + n
    } else {
        (lbn + 1) * bsize
    }) - lbn * bsize
}

/// Logical block `lbn` can serve its part of a read of `n` bytes from file
/// offset `off`: it resolves, and a resolved physical block lies within the
/// volume as far as the read touches it.
pub open spec fn lbn_read_ok(
    img: Seq<u8>,
    sb: Superblock,
    inr: u64,
    off: int,
    n: int,
    lbn: int,
) -> bool {
    match bmap_spec(img, sb, inr, lbn as u64) {
        Ok(BlockPtr::Hole) => true,
        Ok(BlockPtr::Frag(f)) => f * sb.fsize + blk_hi(off, n, sb.bsize as int, lbn)
            <= sb.vol_bytes(),
        Err(_) => false,
    }
}

/// Every logical block touched by a read of `n > 0` bytes from file offset
/// `off` can serve it.
pub open spec fn read_ok(img: Seq<u8>, sb: Superblock, inr: u64, off: int, n: int) -> bool {
    forall|l: int|
        off / sb.bsize as int <= l <= (off + n - 1) / sb.bsize as int ==> #[trigger] lbn_read_ok(
            img,
            sb,
            inr,
            off,
            n,
            l,
        )
}

/// Executable descent mirroring `resolve_level`, one block read per level.
fn resolve_level_x(br: &BlockReader, ptr: u64, idx: u64, level: u64) -> (r: Result<
    BlockPtr,
    UfsError,
>)
    requires
        br.wf(),
        level <= 3,
        idx < span(br.sb().nindir(), level as nat),
    ensures
        r == resolve_level(br.img(), br.sb(), ptr, idx as int, level as nat),
    decreases level,
{
    if ptr == 0 {
        return Ok(BlockPtr::Hole);
    }
    if level == 0 {
        return Ok(BlockPtr::Frag(ptr));
    }
    let sb = &br.sb;
    let nd: u64 = if sb.ufs2 {
        sb.bsize / 8
    } else {
        sb.bsize / 4
    };
    let psz: u64 = if sb.ufs2 {
        8
    } else {
        4
    };
    proof {
        assert(nd == sb.nindir());
        assert(span(nd as int, 0) == 1);
        assert(span(nd as int, 1) == nd * span(nd as int, 0));
        assert(span(nd as int, 2) == nd * span(nd as int, 1));
        assert(span(nd as int, 3) == nd * span(nd as int, 2));
        assert(nd * 1 == nd && nd * nd * 1 == nd * nd) by (nonlinear_arith);
    }
    let sub: u64 = if level == 1 {
        1
    } else if level == 2 {
        nd
    } else {
        proof {
            assert(nd * nd <= 16384 * 16384) by (nonlinear_arith)
                requires
                    nd <= 16384,
            ;
        }
        nd * nd
    };
    assert(sub == span(nd as int, (level - 1) as nat));
    let data = match br.read_frag_range(ptr, 0, sb.bsize) {
        Ok(d) => d,
        Err(e) => {
            return Err(e);
        },
    };
    let slot: u64 = idx / sub;
    proof {
        assert(span(nd as int, level as nat) == nd * sub);
        assert(nd * sub == sub * nd) by (nonlinear_arith);
        lemma_multiply_divide_lt(idx as int, sub as int, nd as int);
        assert(slot < nd);
        assert(slot * psz + psz <= nd * psz) by (nonlinear_arith)
            requires
                slot + 1 <= nd,
                psz >= 1,
        ;
        assert(nd * psz <= sb.bsize) by (nonlinear_arith)
            requires
                nd == sb.bsize as int / psz as int,
                psz >= 1,
                sb.bsize >= 0,
        ;
    }
    let p2: u64 = if sb.ufs2 {
        read_le64(&data, (slot * 8) as usize)
    } else {
        read_le32(&data, (slot * 4) as usize) as u64
    };
    proof {
        assert(p2 == ind_ptr(br.img(), br.sb(), ptr, slot as int));
    }
    let idx2: u64 = idx % sub;
    resolve_level_x(br, p2, idx2, level - 1)
}

/// Executable translation mirroring `bmap_spec`, working on the decoded
/// record.
pub(crate) fn bmap(br: &BlockReader, ino: &Inode, inr: u64, lbn: u64) -> (r: Result<
    BlockPtr,
    UfsError,
>)
    requires
        br.wf(),
        ino.matches(br.img(), br.sb().ino_off(inr as u64), br.sb().ufs2),
    ensures
        r == bmap_spec(br.img(), br.sb(), inr, lbn),
{
    let sb = &br.sb;
    if lbn < 12 {
        let p = ino.db[lbn as usize];
        if p == 0 {
            return Ok(BlockPtr::Hole);
        } else {
            return Ok(BlockPtr::Frag(p));
        }
    }
    let nd: u64 = if sb.ufs2 {
        sb.bsize / 8
    } else {
        sb.bsize / 4
    };
    proof {
        assert(nd == sb.nindir());
        assert(span(nd as int, 0) == 1);
        assert(span(nd as int, 1) == nd * span(nd as int, 0));
        assert(span(nd as int, 2) == nd * span(nd as int, 1));
        assert(span(nd as int, 3) == nd * span(nd as int, 2));
        assert(nd * 1 == nd) by (nonlinear_arith);
        assert(nd * nd <= 16384 * 16384 && nd * (nd * nd) <= 16384 * 16384 * 16384)
            by (nonlinear_arith)
            requires
                nd <= 16384,
        ;
    }
    let n2: u64 = nd * nd;
    let n3: u64 = nd * n2;
    let rem = lbn - 12;
    if rem < nd {
        resolve_level_x(br, ino.ib[0], rem, 1)
    } else {
        let rem2 = rem - nd;
        if rem2 < n2 {
            resolve_level_x(br, ino.ib[1], rem2, 2)
        } else {
            let rem3 = rem2 - n2;
            if rem3 < n3 {
                resolve_level_x(br, ino.ib[2], rem3, 3)
            } else {
                Err(UfsError::Corrupt)
            }
        }
    }
}

} // verus!
