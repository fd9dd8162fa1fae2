//! Superblock decoding and the volume geometry derived from it.
//!
//! The superblock sits at one of two historical byte offsets. Its magic
//! number selects the inode record width (the two on-disk generations of the
//! format) and validates the image. All later address arithmetic — cylinder
//! group placement, inode table location, block and fragment sizes — is a
//! pure function of the fields decoded here.

use vstd::prelude::*;

use crate::bytes::{le32, le64, read_le32, read_le64};
use crate::error::UfsError;

verus! {

/// Magic number of the original format (32-bit inode records).
pub const MAGIC_UFS1: u32 = 0x011954;

/// Magic number of the newer format (64-bit inode records).
pub const MAGIC_UFS2: u32 = 0x19540119;

/// Legacy superblock byte offset, used by original-format volumes.
pub const SBLOCK_LEGACY: usize = 8192;

/// Modern default superblock byte offset.
pub const SBLOCK_MODERN: usize = 65536;

/// Number of superblock bytes the decoder reads; the magic number is the
/// last field of interest.
pub const SB_SPAN: usize = 1376;

/// Number of direct block pointers in an inode record.
pub const NDADDR: usize = 12;

/// Number of indirect block pointers in an inode record.
pub const NIADDR: usize = 3;

/// The decoded volume-wide parameters, immutable after open.
#[derive(Clone, Copy, Debug)]
pub struct Superblock {
    /// True when the magic number selected the 64-bit record width.
    pub ufs2: bool,
    /// Block size in bytes.
    pub bsize: u64,
    /// Fragment size in bytes.
    pub fsize: u64,
    /// Fragments per block, `bsize / fsize`.
    pub frag: u64,
    /// Number of cylinder groups.
    pub ncg: u64,
    /// Inodes per cylinder group.
    pub ipg: u64,
    /// Fragments per cylinder group.
    pub fpg: u64,
    /// Offset, in fragments, of the inode table within a cylinder group.
    pub iblkno: u64,
    /// Cylinder-group placement correction of the legacy layout.
    pub cgoffset: u64,
    /// Mask applied to the group number for that correction.
    pub cgmask: u64,
    /// Declared volume size in fragments.
    pub vol_frags: u64,
    /// Total number of inodes, `ncg * ipg`.
    pub icount: u64,
}

impl Superblock {
    /// Size in bytes of one on-disk inode record.
    pub open spec fn isz(&self) -> int {
        if self.ufs2 {
            256
        } else {
            128
        }
    }

    /// Width in bytes of one on-disk block pointer.
    pub open spec fn psz(&self) -> int {
        if self.ufs2 {
            8
        } else {
            4
        }
    }

    /// Number of block pointers held by one indirect block.
    pub open spec fn nindir(&self) -> int {
        self.bsize as int / self.psz()
    }

    /// Declared volume size in bytes.
    pub open spec fn vol_bytes(&self) -> int {
        self.vol_frags * self.fsize
    }

    /// First fragment of cylinder group `g`; the legacy layout staggers
    /// groups by `cgoffset` fragments for every group number bit left set by
    /// `!cgmask`.
    pub open spec fn cgstart(&self, g: u64) -> int {
        self.fpg * g + self.cgoffset * ((g & !self.cgmask) as int)
    }

    /// First fragment of the inode table of cylinder group `g`.
    pub open spec fn cgimin(&self, g: u64) -> int {
        self.cgstart(g) + self.iblkno
    }

    /// Byte offset of the record of inode `inr` within the volume.
    pub open spec fn ino_off(&self, inr: u64) -> int {
        self.cgimin(inr / self.ipg) * self.fsize + (inr % self.ipg) * self.isz()
    }

    /// The geometry invariants every open volume satisfies: sizes within the
    /// format's bounds, the block size a power-of-two multiple of the
    /// fragment size, and the inode count consistent with the group count.
    pub open spec fn geo_ok(&self) -> bool {
        &&& 512 <= self.fsize
        &&& self.fsize <= self.bsize
        &&& self.bsize <= 65536
        &&& (self.frag == 1 || self.frag == 2 || self.frag == 4 || self.frag == 8)
        &&& self.bsize == self.fsize * self.frag
        &&& 1 <= self.ncg <= 0xffff_ffff
        &&& 1 <= self.ipg <= 0xffff_ffff
        &&& 1 <= self.fpg <= 0xffff_ffff
        &&& self.iblkno <= 0xffff_ffff
        &&& self.cgoffset <= 0xffff_ffff
        &&& self.cgmask <= 0xffff_ffff
        &&& self.icount == self.ncg * self.ipg
        &&& 1 <= self.vol_frags <= 0x7fff_ffff_ffff_ffff
    }

    /// Every cylinder group's inode table lies within the declared volume,
    /// so locating any valid inode's record never leaves the volume.
    pub open spec fn tables_ok(&self) -> bool {
        forall|g: u64|
            g < self.ncg ==> #[trigger] self.cgimin(g) * self.fsize + self.ipg * self.isz()
                <= self.vol_bytes()
    }
}

/// The candidate superblock byte offset selected by the open-time flag.
pub open spec fn sb_off(old_superblock: bool) -> int {
    if old_superblock {
        8192
    } else {
        65536
    }
}

/// The magic number found at candidate offset `off`.
pub open spec fn sb_magic(s: Seq<u8>, off: int) -> nat {
    le32(s, off + 1372)
}

/// The superblock fields decoded from the image at candidate offset `off`.
pub open spec fn sb_parse(s: Seq<u8>, off: int) -> Superblock {
    let ufs2 = sb_magic(s, off) == MAGIC_UFS2;
    Superblock {
        ufs2,
        bsize: le32(s, off + 48) as u64,
        fsize: le32(s, off + 52) as u64,
        frag: le32(s, off + 56) as u64,
        ncg: le32(s, off + 44) as u64,
        ipg: le32(s, off + 184) as u64,
        fpg: le32(s, off + 188) as u64,
        iblkno: le32(s, off + 16) as u64,
        cgoffset: le32(s, off + 24) as u64,
        cgmask: le32(s, off + 28) as u64,
        vol_frags: if ufs2 {
            le64(s, off + 1080) as u64
        } else {
            le32(s, off + 36) as u64
        },
        icount: (le32(s, off + 44) * le32(s, off + 184)) as u64,
    }
}

/// A valid superblock stands at offset `off` of the image: the candidate
/// span is inside the image, the magic number matches one of the two
/// recognized constants, the geometry invariants hold, and the declared
/// volume — every cylinder group's inode table included — fits the image.
pub open spec fn sb_ok(s: Seq<u8>, off: int) -> bool {
    &&& off + SB_SPAN <= s.len()
    &&& (sb_magic(s, off) == MAGIC_UFS1 || sb_magic(s, off) == MAGIC_UFS2)
    &&& sb_parse(s, off).geo_ok()
    &&& sb_parse(s, off).vol_bytes() <= s.len()
    &&& sb_parse(s, off).tables_ok()
}

/// Decodes and validates the superblock at candidate offset `off`,
/// reporting a corrupt format exactly when validation fails.
pub fn decode_superblock(img: &Vec<u8>, off: usize) -> (r: Result<Superblock, UfsError>)
    ensures
        r is Ok <==> sb_ok(img@, off as int),
        r matches Ok(sb) ==> sb == sb_parse(img@, off as int),
        r matches Err(e) ==> e == UfsError::Corrupt,
{
    if off > img.len() || SB_SPAN > img.len() - off {
        return Err(UfsError::Corrupt);
    }
    let magic = read_le32(img, off + 1372);
    if magic != MAGIC_UFS1 && magic != MAGIC_UFS2 {
        return Err(UfsError::Corrupt);
    }
    let ufs2 = magic == MAGIC_UFS2;
    let bsize = read_le32(img, off + 48) as u64;
    let fsize = read_le32(img, off + 52) as u64;
    let frag = read_le32(img, off + 56) as u64;
    let ncg = read_le32(img, off + 44) as u64;
    let ipg = read_le32(img, off + 184) as u64;
    let fpg = read_le32(img, off + 188) as u64;
    let iblkno = read_le32(img, off + 16) as u64;
    let cgoffset = read_le32(img, off + 24) as u64;
    let cgmask = read_le32(img, off + 28) as u64;
    let vol_frags = if ufs2 {
        read_le64(img, off + 1080)
    } else {
        read_le32(img, off + 36) as u64
    };
    assert(ncg * ipg <= 0xffff_ffff * 0xffff_ffff) by (nonlinear_arith)
        requires
            ncg <= 0xffff_ffff,
            ipg <= 0xffff_ffff,
    ;
    let icount = ncg * ipg;
    let sb = Superblock {
        ufs2,
        bsize,
        fsize,
        frag,
        ncg,
        ipg,
        fpg,
        iblkno,
        cgoffset,
        cgmask,
        vol_frags,
        icount,
    };
    if !(512 <= fsize && fsize <= bsize && bsize <= 65536) {
        return Err(UfsError::Corrupt);
    }
    if !(frag == 1 || frag == 2 || frag == 4 || frag == 8) {
        return Err(UfsError::Corrupt);
    }
    assert(fsize * frag <= 65536 * 8) by (nonlinear_arith)
        requires
            fsize <= 65536,
            frag <= 8,
    ;
    if bsize != fsize * frag {
        return Err(UfsError::Corrupt);
    }
    if ncg == 0 || ipg == 0 || fpg == 0 {
        return Err(UfsError::Corrupt);
    }
    if vol_frags == 0 || vol_frags > 0x7fff_ffff_ffff_ffff {
        return Err(UfsError::Corrupt);
    }
    assert(vol_frags as u128 * fsize as u128 <= 0x7fff_ffff_ffff_ffff * 65536) by (nonlinear_arith)
        requires
            vol_frags <= 0x7fff_ffff_ffff_ffff,
            fsize <= 65536,
    ;
    let vb: u128 = vol_frags as u128 * fsize as u128;
    if vb > img.len() as u128 {
        return Err(UfsError::Corrupt);
    }
    let isz: u64 = if ufs2 {
        256
    } else {
        128
    };
    let mut g: u64 = 0;
    while g < ncg
        invariant
            sb.geo_ok(),
            sb == sb_parse(img@, off as int),
            g <= ncg,
            ncg == sb.ncg,
            ipg == sb.ipg,
            fpg == sb.fpg,
            fsize == sb.fsize,
            iblkno == sb.iblkno,
            cgoffset == sb.cgoffset,
            cgmask == sb.cgmask,
            isz == sb.isz(),
            vb == sb.vol_bytes(),
            vb <= img.len(),
            forall|h: u64|
                h < g ==> #[trigger] sb.cgimin(h) * sb.fsize + sb.ipg * sb.isz() <= sb.vol_bytes(),
        decreases ncg - g,
    {
        let t: u64 = g & !cgmask;
        assert(t <= g) by (bit_vector)
            requires
                t == g & !cgmask,
        ;
        assert(fpg as u128 * g as u128 <= 0xffff_ffff * 0xffff_ffff
            && cgoffset as u128 * t as u128 <= 0xffff_ffff * 0xffff_ffff) by (nonlinear_arith)
            requires
                fpg <= 0xffff_ffff,
                g <= 0xffff_ffff,
                cgoffset <= 0xffff_ffff,
                t <= 0xffff_ffff,
        ;
        let start: u128 = fpg as u128 * g as u128 + cgoffset as u128 * t as u128;
        let imin: u128 = start + iblkno as u128;
        assert(imin as int == sb.cgimin(g));
        assert(imin * fsize as u128 <= 0x4_0000_0000_0000_0000 * 65536
            && ipg as u128 * isz as u128 <= 0xffff_ffff * 256) by (nonlinear_arith)
            requires
                imin <= 0x4_0000_0000_0000_0000,
                fsize <= 65536,
                ipg <= 0xffff_ffff,
                isz <= 256,
        ;
        let end: u128 = imin * fsize as u128 + ipg as u128 * isz as u128;
        if end > vb {
            return Err(UfsError::Corrupt);
        }
        g = g + 1;
    }
    Ok(sb)
}

} // verus!
